//! The message dispatcher: what each client request does to the world and
//! which events it queues.
use crate::geometry::{Point, Velocity};
use crate::map::{GameMap, MapId, MapView, START_MAP};
use crate::protocol::{
    Audience, ChatMessage, ClientId, ClientMessage, Direction, Message, NetworkSignal, Outbound,
    ServerEvent, ServerMessage,
};
use crate::server::{
    disconnect_done, has_map, has_player, ids_on, is_notice, joined_text, lemma_map_of, lemma_player_of, map_of,
    player_of, say_text, spawn_point, warp_events, warped, welcome_text, GameServer, PlayerData,
    Players, WarpParams,
};
use vstd::prelude::*;
use vstd::string::*;

verus! {

/// The record made by a handshake at time `time`.
pub open spec fn hello_record(name: String, sprite: u32, time: u64) -> PlayerData {
    PlayerData {
        name,
        sprite,
        position: spawn_point(),
        direction: Direction::South,
        velocity: None,
        map: MapId(START_MAP),
        last_message: time,
    }
}

/// Position of connection `c` among players that hold it.
pub open spec fn index_of(ps: Players, c: ClientId) -> int {
    choose|i: int| 0 <= i < ps.len() && #[trigger] ps[i].0 == c
}

/// The players after `c` gets record `p`: its record is replaced, or it is
/// added last.
pub open spec fn with_player(ps: Players, c: ClientId, p: PlayerData) -> Players {
    if has_player(ps, c) {
        ps.update(index_of(ps, c), (c, p))
    } else {
        ps.push((c, p))
    }
}

/// The catalog of maps sent to the map editor: identifier and name, in
/// store order.
pub open spec fn catalog(ms: Seq<GameMap>) -> Seq<(MapId, String)> {
    ms.map_values(|m: GameMap| (m.id, m.settings.name))
}

/// The map view stored for a save of `map` on map `m`.
pub open spec fn saved_view(map: MapView, m: MapId) -> MapView {
    MapView { id: m, ..map }
}

/// Nothing but the queue changed.
pub open spec fn same_world(pre: GameServer, post: GameServer) -> bool {
    &&& post.players == pre.players
    &&& post.maps == pre.maps
    &&& post.pending_saves == pre.pending_saves
}

/// The queue grew by `extra`.
pub open spec fn queued(pre: GameServer, post: GameServer, extra: Seq<Outbound>) -> bool {
    post.queue_spec() == pre.queue_spec() + extra
}

/// The queue grew by one event, which satisfies `f`.
pub open spec fn queued_one(pre: GameServer, post: GameServer, f: spec_fn(Outbound) -> bool) -> bool {
    let n = pre.queue_spec().len() as int;
    &&& post.queue_spec().len() == n + 1
    &&& post.queue_spec().subrange(0, n) == pre.queue_spec()
    &&& f(post.queue_spec()[n])
}

/// Outcome of a handshake by `c` with `name` and `sprite`: the record is
/// made at the spawn point, the client gets its identifier, the initial warp
/// to the start map and a welcome notice, and everybody else a join notice.
pub open spec fn hello_done(pre: GameServer, post: GameServer, c: ClientId, name: String, sprite: u32) -> bool {
    let p = hello_record(name, sprite, pre.time);
    let ps = with_player(pre.players@, c, p);
    let w = warp_events(ps, ps, c, p, p, map_of(pre.maps@, MapId(START_MAP))->0.settings.revision, true);
    let n = pre.queue_spec().len() as int;
    let q = post.queue_spec();
    &&& post.players@ == ps
    &&& post.maps == pre.maps
    &&& post.pending_saves == pre.pending_saves
    &&& q.len() == n + w.len() + 3
    &&& q.subrange(0, n) == pre.queue_spec()
    &&& q[n] == (Outbound { to: Audience::Only(c), event: ServerEvent::Hello(c) })
    &&& q.subrange(n + 1, n + 1 + w.len()) == w
    &&& is_notice(q[n + 1 + w.len()], Audience::Only(c), welcome_text())
    &&& is_notice(q[n + 2 + w.len()], Audience::Exclude(c), joined_text(name@))
}

/// Outcome of a chat line from `c`: everybody gets `name: text`.
pub open spec fn chat_done(pre: GameServer, post: GameServer, c: ClientId, text: String) -> bool {
    let p = player_of(pre.players@, c)->0;
    &&& same_world(pre, post)
    &&& queued_one(
        pre,
        post,
        |o: Outbound|
            o.to == Audience::Everybody && (o.event matches ServerEvent::Message(ChatMessage::Say(t))
                && t@ == say_text(p.name@, text@)),
    )
}

/// Outcome of a map request from `c`: it alone gets its current map.
pub open spec fn request_map_done(pre: GameServer, post: GameServer, c: ClientId) -> bool {
    let p = player_of(pre.players@, c)->0;
    &&& same_world(pre, post)
    &&& queued(
        pre,
        post,
        seq![Outbound { to: Audience::Only(c), event: ServerEvent::MapData(map_of(pre.maps@, p.map)->0@) }],
    )
}

/// Outcome of a save of `map` by `c`: a well formed map replaces the one the
/// player is on, under that map's identifier, is marked for persisting and is
/// sent to every player on it; another is dropped.
pub open spec fn save_map_done(pre: GameServer, post: GameServer, c: ClientId, map: MapView) -> bool {
    let m = player_of(pre.players@, c)->0.map;
    let i = choose|i: int| 0 <= i < pre.maps@.len() && #[trigger] pre.maps@[i].id == m;
    if map_view_wf(map) {
        &&& post.players == pre.players
        &&& post.maps@.len() == pre.maps@.len()
        &&& post.maps@[i]@ == saved_view(map, m)
        &&& forall|j: int| 0 <= j < pre.maps@.len() && j != i ==> post.maps@[j] == pre.maps@[j]
        &&& post.pending_saves@ == pre.pending_saves@.push(m)
        &&& queued(
            pre,
            post,
            seq![Outbound { to: Audience::List(ids_on(pre.players@, m, None)), event: ServerEvent::MapData(saved_view(map, m)) }],
        )
    } else {
        same_world(pre, post) && post.queue_spec() == pre.queue_spec()
    }
}

/// Every layer of a map view holds `width * height` cells.
pub open spec fn map_view_wf(v: MapView) -> bool {
    let n = crate::map::cell_count(v.width, v.height);
    v.ground.len() == n && v.mask.len() == n && v.mask2.len() == n && v.fringe.len() == n
}

/// Outcome of a move by `c`: the record takes the position, direction and
/// velocity as given, and the other players on its map are told.
pub open spec fn move_done(
    pre: GameServer,
    post: GameServer,
    c: ClientId,
    position: Point,
    direction: Direction,
    velocity: Option<Velocity>,
) -> bool {
    let p = player_of(pre.players@, c)->0;
    &&& post.players@ == pre.players@.update(
        index_of(pre.players@, c),
        (c, PlayerData { position, direction, velocity, ..p }),
    )
    &&& post.maps == pre.maps
    &&& post.pending_saves == pre.pending_saves
    &&& queued(
        pre,
        post,
        seq![Outbound { to: Audience::List(ids_on(pre.players@, p.map, Some(c))), event: ServerEvent::PlayerMove { client_id: c, position, direction, velocity } }],
    )
}

/// Outcome of a warp request by `c` to map `m`, optionally at `position`.
pub open spec fn warp_done(pre: GameServer, post: GameServer, c: ClientId, m: MapId, position: Option<Point>) -> bool {
    let i = index_of(pre.players@, c);
    let p = pre.players@[i].1;
    let params = WarpParams { initial: false, position, direction: None, velocity: None };
    let q = warped(p, m, params);
    &&& post.players@ == pre.players@.update(i, (c, q))
    &&& post.pending_saves == pre.pending_saves
    &&& queued(pre, post, warp_events(pre.players@, post.players@, c, p, q, map_of(post.maps@, m)->0.settings.revision, false))
    &&& has_map(pre.maps@, m) ==> post.maps == pre.maps
    &&& !has_map(pre.maps@, m) ==> post.maps@.drop_last() == pre.maps@ && post.maps@.len() == pre.maps@.len() + 1
        && crate::server::is_fresh_map(post.maps@.last()@, m, crate::server::DEFAULT_MAP_WIDTH, crate::server::DEFAULT_MAP_HEIGHT)
}

/// Outcome of a map editor request by `c`: it alone gets the catalog of maps
/// and the size and settings of its current map.
pub open spec fn map_editor_done(pre: GameServer, post: GameServer, c: ClientId) -> bool {
    let m = player_of(pre.players@, c)->0.map;
    let map = map_of(pre.maps@, m)->0;
    &&& same_world(pre, post)
    &&& queued(
        pre,
        post,
        seq![Outbound { to: Audience::Only(c), event: ServerEvent::MapEditor { maps: catalog(pre.maps@), id: m, width: map.width, height: map.height, settings: map.settings } }],
    )
}

/// Outcome of request `message` from `c`, sent by a client with a player
/// record. A handshake's outcome is the same with or without one.
pub open spec fn request_done(pre: GameServer, post: GameServer, c: ClientId, message: ClientMessage) -> bool {
    match message {
        ClientMessage::Hello(name, sprite) => hello_done(pre, post, c, name, sprite),
        ClientMessage::Message(text) => chat_done(pre, post, c, text),
        ClientMessage::RequestMap => request_map_done(pre, post, c),
        ClientMessage::SaveMap(map) => save_map_done(pre, post, c, map@),
        ClientMessage::Move { position, direction, velocity } => move_done(pre, post, c, position, direction, velocity),
        ClientMessage::Warp(m, position) => warp_done(pre, post, c, m, position),
        ClientMessage::MapEditor => map_editor_done(pre, post, c),
    }
}

/// Outcome of one signal of the transport; the clock does not move.
pub open spec fn signal_done(pre: GameServer, post: GameServer, signal: NetworkSignal) -> bool {
    &&& post.time == pre.time
    &&& post.dt == pre.dt
    &&& signal is Connected ==> same_world(pre, post) && post.queue_spec() == pre.queue_spec()
    &&& signal matches NetworkSignal::Disconnected(c) ==> disconnect_done(pre, post, c)
    &&& signal matches NetworkSignal::Message(c, message) ==> {
        &&& !has_player(pre.players@, c) && !(message is Hello) ==> same_world(pre, post)
            && post.queue_spec() == pre.queue_spec()
        &&& has_player(pre.players@, c) || message is Hello ==> request_done(pre, post, c, message)
    }
}

impl GameServer {
    /// Handles one request from connection `c`. A connection without a
    /// player record may only send the handshake: anything else is dropped
    /// and changes nothing.
    pub fn handle_message(&mut self, c: ClientId, message: ClientMessage)
        requires
            old(self).wf(),
        ensures
            final(self).wf(),
            final(self).time == old(self).time,
            final(self).dt == old(self).dt,
            !has_player(old(self).players@, c) && !(message is Hello) ==> same_world(*old(self), *final(self))
                && final(self).queue_spec() == old(self).queue_spec(),
            has_player(old(self).players@, c) || message is Hello ==> request_done(*old(self), *final(self), c, message),
    {
        let is_hello = match &message {
            ClientMessage::Hello(_, _) => true,
            _ => false,
        };
        if self.find_player(c).is_none() && !is_hello {
            return;
        }
        match message {
            ClientMessage::Hello(name, sprite) => self.handle_hello(c, name, sprite),
            ClientMessage::Message(text) => self.handle_chat(c, text),
            ClientMessage::RequestMap => self.handle_request_map(c),
            ClientMessage::SaveMap(map) => self.handle_save_map(c, map),
            ClientMessage::Move { position, direction, velocity } => self.handle_move(c, position, direction, velocity),
            ClientMessage::Warp(m, position) => {
                self.warp_player(c, m, WarpParams { initial: false, position, direction: None, velocity: None });
                proof {
                    let i = choose|i: int| {
                        &&& 0 <= i < old(self).players@.len()
                        &&& old(self).players@[i].0 == c
                        &&& self.players@ == old(self).players@.update(
                            i,
                            (c, warped(old(self).players@[i].1, m, WarpParams { initial: false, position, direction: None, velocity: None })),
                        )
                        &&& self.queue_spec() == old(self).queue_spec() + warp_events(
                            old(self).players@,
                            self.players@,
                            c,
                            old(self).players@[i].1,
                            warped(old(self).players@[i].1, m, WarpParams { initial: false, position, direction: None, velocity: None }),
                            map_of(self.maps@, m)->0.settings.revision,
                            false,
                        )
                    };
                    lemma_player_of(old(self).players@, i);
                }
            },
            ClientMessage::MapEditor => self.handle_map_editor(c),
        }
    }

    /// Handles one signal of the transport, in the order received: a new
    /// connection changes nothing until its handshake, a disconnection is
    /// handled by [`GameServer::handle_disconnect`] and a request by
    /// [`GameServer::handle_message`].
    pub fn handle_signal(&mut self, signal: NetworkSignal)
        requires
            old(self).wf(),
        ensures
            final(self).wf(),
            signal_done(*old(self), *final(self), signal),
    {
        match signal {
            NetworkSignal::Connected(_) => {},
            NetworkSignal::Disconnected(c) => self.handle_disconnect(c),
            NetworkSignal::Message(c, message) => self.handle_message(c, message),
        }
    }

    /// A chat line: see [`chat_done`].
    fn handle_chat(&mut self, c: ClientId, text: String)
        requires
            old(self).wf(),
            has_player(old(self).players@, c),
        ensures
            final(self).wf(),
            final(self).time == old(self).time,
            final(self).dt == old(self).dt,
            chat_done(*old(self), *final(self), c, text),
    {
        let i = self.find_player(c).unwrap();
        proof {
            lemma_player_of(self.players@, i as int);
        }
        let full = self.players[i].1.name.clone().concat(": ").concat(text.as_str());
        self.queue(Message::everybody(ServerMessage::Message(ChatMessage::Say(full))));
        assert(self.queue_spec().subrange(0, old(self).queue_spec().len() as int) =~= old(self).queue_spec());
    }

    /// A map request: see [`request_map_done`].
    fn handle_request_map(&mut self, c: ClientId)
        requires
            old(self).wf(),
            has_player(old(self).players@, c),
        ensures
            final(self).wf(),
            final(self).time == old(self).time,
            final(self).dt == old(self).dt,
            request_map_done(*old(self), *final(self), c),
    {
        let i = self.find_player(c).unwrap();
        proof {
            lemma_player_of(self.players@, i as int);
        }
        let m = self.players[i].1.map;
        let mi = self.ensure_map(m);
        proof {
            lemma_map_of(self.maps@, mi as int);
        }
        let map = self.maps[mi].clone();
        self.queue(Message::only(c, ServerMessage::MapData(map)));
        assert(self.queue_spec() =~= old(self).queue_spec() + seq![Outbound { to: Audience::Only(c), event: ServerEvent::MapData(map_of(old(self).maps@, m)->0@) }]);
    }

    /// A map save: see [`save_map_done`].
    fn handle_save_map(&mut self, c: ClientId, map: GameMap)
        requires
            old(self).wf(),
            has_player(old(self).players@, c),
        ensures
            final(self).wf(),
            final(self).time == old(self).time,
            final(self).dt == old(self).dt,
            save_map_done(*old(self), *final(self), c, map@),
    {
        let i = self.find_player(c).unwrap();
        proof {
            lemma_player_of(self.players@, i as int);
        }
        let m = self.players[i].1.map;
        let valid = map.is_valid();
        proof {
            if valid != map_view_wf(map@) {
                if valid {
                    assert(map.layer_spec(crate::map::MapLayer::Ground).len() == crate::map::cell_count(map.width, map.height));
                    assert(map.layer_spec(crate::map::MapLayer::Mask).len() == crate::map::cell_count(map.width, map.height));
                    assert(map.layer_spec(crate::map::MapLayer::Mask2).len() == crate::map::cell_count(map.width, map.height));
                    assert(map.layer_spec(crate::map::MapLayer::Fringe).len() == crate::map::cell_count(map.width, map.height));
                } else {
                    assert forall|l: crate::map::MapLayer| #[trigger] map.layer_spec(l).len() == crate::map::cell_count(map.width, map.height) by {
                        match l {
                            crate::map::MapLayer::Ground => {},
                            crate::map::MapLayer::Mask => {},
                            crate::map::MapLayer::Mask2 => {},
                            crate::map::MapLayer::Fringe => {},
                        }
                    }
                }
            }
        }
        if !valid {
            return;
        }
        let mi = self.ensure_map(m);
        proof {
            lemma_map_of(self.maps@, mi as int);
        }
        let mut stored = map;
        stored.id = m;
        let copy = stored.clone();
        let ghost pre_maps = self.maps@;
        self.maps.set(mi, stored);
        proof {
            let ms = self.maps@;
            assert forall|a: int, b: int| 0 <= a < b < ms.len() implies ms[a].id != ms[b].id by {
                assert(pre_maps[a].id != pre_maps[b].id);
            }
            assert forall|a: int| 0 <= a < ms.len() implies #[trigger] ms[a].wf() by {
                if a != mi {
                    assert(ms[a] == pre_maps[a]);
                    assert(pre_maps[a].wf());
                } else {
                    assert forall|l: crate::map::MapLayer| #[trigger] ms[a].layer_spec(l).len() == crate::map::cell_count(ms[a].width, ms[a].height) by {
                        assert(map.wf());
                        assert(map.layer_spec(l).len() == crate::map::cell_count(map.width, map.height));
                        match l {
                            crate::map::MapLayer::Ground => {},
                            crate::map::MapLayer::Mask => {},
                            crate::map::MapLayer::Mask2 => {},
                            crate::map::MapLayer::Fringe => {},
                        }
                    }
                }
            }
            assert forall|a: int| 0 <= a < self.players@.len() implies has_map(ms, #[trigger] self.players@[a].1.map) by {
                let pm = self.players@[a].1.map;
                let j = choose|j: int| 0 <= j < pre_maps.len() && #[trigger] pre_maps[j].id == pm;
                assert(ms[j].id == pm);
            }
            let start = MapId(START_MAP);
            let j = choose|j: int| 0 <= j < pre_maps.len() && #[trigger] pre_maps[j].id == start;
            assert(ms[j].id == start);
        }
        self.pending_saves.push(m);
        let list = self.ids_on_map(m, None);
        self.queue(Message::list(list, ServerMessage::MapData(copy)));
        assert(self.queue_spec() =~= old(self).queue_spec() + seq![Outbound { to: Audience::List(ids_on(old(self).players@, m, None)), event: ServerEvent::MapData(saved_view(map@, m)) }]);
    }

    /// A move: see [`move_done`].
    fn handle_move(&mut self, c: ClientId, position: Point, direction: Direction, velocity: Option<Velocity>)
        requires
            old(self).wf(),
            has_player(old(self).players@, c),
        ensures
            final(self).wf(),
            final(self).time == old(self).time,
            final(self).dt == old(self).dt,
            move_done(*old(self), *final(self), c, position, direction, velocity),
    {
        let i = self.find_player(c).unwrap();
        proof {
            lemma_player_of(self.players@, i as int);
        }
        let p = self.players[i].1.clone();
        let list = self.ids_on_map(p.map, Some(c));
        let ghost pre = self.players@;
        let map = p.map;
        self.players.set(i, (c, PlayerData { position, direction, velocity, ..p }));
        proof {
            let ps = self.players@;
            assert forall|a: int, b: int| 0 <= a < b < ps.len() implies ps[a].0 != ps[b].0 by {
                assert(pre[a].0 != pre[b].0);
            }
            assert forall|a: int| 0 <= a < ps.len() implies has_map(self.maps@, #[trigger] ps[a].1.map) by {
                assert(has_map(self.maps@, pre[a].1.map));
            }
        }
        self.queue(
            Message::list(list, ServerMessage::PlayerMove { client_id: c, position, direction, velocity }),
        );
        assert(self.queue_spec() =~= old(self).queue_spec() + seq![Outbound { to: Audience::List(ids_on(pre, map, Some(c))), event: ServerEvent::PlayerMove { client_id: c, position, direction, velocity } }]);
    }

    /// A map editor request: see [`map_editor_done`].
    fn handle_map_editor(&mut self, c: ClientId)
        requires
            old(self).wf(),
            has_player(old(self).players@, c),
        ensures
            final(self).wf(),
            final(self).time == old(self).time,
            final(self).dt == old(self).dt,
            map_editor_done(*old(self), *final(self), c),
    {
        let i = self.find_player(c).unwrap();
        proof {
            lemma_player_of(self.players@, i as int);
        }
        let m = self.players[i].1.map;
        let mi = self.ensure_map(m);
        proof {
            lemma_map_of(self.maps@, mi as int);
        }
        let mut maps: Vec<(MapId, String)> = Vec::new();
        let mut k: usize = 0;
        while k < self.maps.len()
            invariant
                k <= self.maps@.len(),
                maps@ == catalog(self.maps@.subrange(0, k as int)),
            decreases self.maps@.len() - k,
        {
            maps.push((self.maps[k].id, self.maps[k].settings.name.clone()));
            k = k + 1;
            assert(maps@ =~= catalog(self.maps@.subrange(0, k as int)));
        }
        assert(self.maps@.subrange(0, self.maps@.len() as int) =~= self.maps@);
        let width = self.maps[mi].width;
        let height = self.maps[mi].height;
        let settings = self.maps[mi].settings.clone();
        self.queue(Message::only(c, ServerMessage::MapEditor { maps, id: m, width, height, settings }));
        assert(self.queue_spec() =~= old(self).queue_spec() + seq![Outbound { to: Audience::Only(c), event: ServerEvent::MapEditor { maps: catalog(old(self).maps@), id: m, width, height, settings } }]);
    }

    /// The handshake: see [`hello_done`].
    fn handle_hello(&mut self, c: ClientId, name: String, sprite: u32)
        requires
            old(self).wf(),
        ensures
            final(self).wf(),
            final(self).time == old(self).time,
            final(self).dt == old(self).dt,
            hello_done(*old(self), *final(self), c, name, sprite),
    {
        let mut player = self.load_player(name.as_str());
        let joined = name.clone().concat(" has joined the game.");
        player.name = name;
        player.sprite = sprite;
        assert(player == hello_record(name, sprite, self.time));
        let ghost p = player;
        let ghost pre = *self;
        match self.find_player(c) {
            Some(i) => {
                proof {
                    lemma_player_of(self.players@, i as int);
                }
                self.players.set(i, (c, player.clone()));
                proof {
                    let ps = self.players@;
                    assert forall|a: int, b: int| 0 <= a < b < ps.len() implies ps[a].0 != ps[b].0 by {
                        assert(pre.players@[a].0 != pre.players@[b].0);
                    }
                    assert forall|a: int| 0 <= a < ps.len() implies has_map(self.maps@, #[trigger] ps[a].1.map) by {
                        if a != i {
                            assert(ps[a] == pre.players@[a]);
                        }
                    }
                }
            },
            None => {
                self.players.push((c, player.clone()));
                proof {
                    let ps = self.players@;
                    assert forall|a: int, b: int| 0 <= a < b < ps.len() implies ps[a].0 != ps[b].0 by {
                        if b == ps.len() - 1 {
                            assert(pre.players@[a].0 == ps[a].0);
                        } else {
                            assert(pre.players@[a].0 != pre.players@[b].0);
                        }
                    }
                    assert forall|a: int| 0 <= a < ps.len() implies has_map(self.maps@, #[trigger] ps[a].1.map) by {
                        if a < ps.len() - 1 {
                            assert(ps[a] == pre.players@[a]);
                        }
                    }
                }
            },
        }
        let ghost mid = self.players@;
        assert(mid =~= with_player(pre.players@, c, p));
        self.queue(Message::only(c, ServerMessage::Hello(c)));
        let ghost q1 = self.queue_spec();
        let params = WarpParams { initial: true, position: None, direction: None, velocity: None };
        self.warp_player(c, MapId::start(), params);
        proof {
            assert(has_player(mid, c)) by {
                if !has_player(pre.players@, c) {
                    assert(mid[mid.len() - 1].0 == c);
                } else {
                    assert(mid[index_of(pre.players@, c)].0 == c);
                }
            }
            let i = choose|i: int| {
                &&& 0 <= i < mid.len()
                &&& mid[i].0 == c
                &&& self.players@ == mid.update(i, (c, warped(mid[i].1, MapId(START_MAP), params)))
                &&& self.queue_spec() == q1 + warp_events(
                    mid,
                    self.players@,
                    c,
                    mid[i].1,
                    warped(mid[i].1, MapId(START_MAP), params),
                    map_of(self.maps@, MapId(START_MAP))->0.settings.revision,
                    true,
                )
            };
            lemma_player_of(mid, i);
            if !has_player(pre.players@, c) {
                assert(mid[mid.len() - 1].0 == c);
                lemma_player_of(mid, mid.len() - 1);
            } else {
                assert(mid[index_of(pre.players@, c)].0 == c);
                lemma_player_of(mid, index_of(pre.players@, c));
            }
            assert(mid[i].1 == p);
            assert(warped(p, MapId(START_MAP), params) == p);
            assert(self.players@ =~= mid);
        }
        let ghost q2 = self.queue_spec();
        self.queue(Message::only(c, ServerMessage::Message(ChatMessage::Server(String::from_str("Welcome to Game™!")))));
        self.queue(Message::exclude(c, ServerMessage::Message(ChatMessage::Server(joined))));
        proof {
            let n = pre.queue_spec().len() as int;
            let w = warp_events(mid, mid, c, p, p, map_of(pre.maps@, MapId(START_MAP))->0.settings.revision, true);
            assert(self.maps == pre.maps);
            assert(q2 == q1 + w);
            assert(q1 == pre.queue_spec().push(Outbound { to: Audience::Only(c), event: ServerEvent::Hello(c) }));
            assert(self.queue_spec().subrange(0, n) =~= pre.queue_spec());
            assert(self.queue_spec().subrange(n + 1, n + 1 + w.len()) =~= w);
            assert(self.queue_spec()[n] == q1[n]);
        }
    }
}

} // verus!
