//! The world state store and everything that changes it: the message
//! dispatcher, the warp protocol and the simulation tick.
use crate::geometry::{Point, Velocity, SUBPIXELS_PER_PIXEL, TILE_SIZE};
use crate::map::{cell_count, empty_layer, is_default_settings, GameMap, MapId, MapView};
use crate::protocol::{
    Audience, ChatMessage, ClientId, Direction, Message, Outbound, PlayerSummary, ServerEvent,
    ServerMessage,
};
use vstd::prelude::*;
use vstd::string::*;

verus! {

/// Width, in tiles, of a map made because none was stored.
pub const DEFAULT_MAP_WIDTH: u32 = 20;

/// Height, in tiles, of a map made because none was stored.
pub const DEFAULT_MAP_HEIGHT: u32 = 15;

/// Least time between two proximity messages to one player, in microseconds.
pub const MESSAGE_COOLDOWN: u64 = 1_000_000;

/// A connected player.
#[derive(Debug)]
pub struct PlayerData {
    pub name: String,
    pub sprite: u32,
    pub position: Point,
    pub direction: Direction,
    pub velocity: Option<Velocity>,
    pub map: MapId,
    /// When this player last got a proximity message.
    pub last_message: u64,
}

impl Clone for PlayerData {
    fn clone(&self) -> (r: Self)
        ensures
            r == *self,
    {
        PlayerData {
            name: self.name.clone(),
            sprite: self.sprite,
            position: self.position,
            direction: self.direction,
            velocity: self.velocity,
            map: self.map,
            last_message: self.last_message,
        }
    }
}

/// What other clients are told of a player.
pub open spec fn summary_of(p: PlayerData) -> PlayerSummary {
    PlayerSummary { name: p.name, sprite: p.sprite, position: p.position, direction: p.direction }
}

impl PlayerData {
    /// What other clients are told of this player.
    pub fn summary(&self) -> (r: PlayerSummary)
        ensures
            r == summary_of(*self),
    {
        PlayerSummary {
            name: self.name.clone(),
            sprite: self.sprite,
            position: self.position,
            direction: self.direction,
        }
    }
}

/// Options of a warp; each `None` keeps the player's current value.
#[derive(Clone, Copy, Debug)]
pub struct WarpParams {
    /// Delivery of a player's first view after the handshake: nobody is told
    /// that the player left a map.
    pub initial: bool,
    pub position: Option<Point>,
    pub direction: Option<Direction>,
    pub velocity: Option<Option<Velocity>>,
}

/// The players, in the order in which they joined.
pub type Players = Seq<(ClientId, PlayerData)>;

/// No two players share a connection.
pub open spec fn unique_players(ps: Players) -> bool {
    forall|i: int, j: int| 0 <= i < j < ps.len() ==> #[trigger] ps[i].0 != #[trigger] ps[j].0
}

/// No two maps share an identifier.
pub open spec fn unique_maps(ms: Seq<GameMap>) -> bool {
    forall|i: int, j: int| 0 <= i < j < ms.len() ==> #[trigger] ms[i].id != #[trigger] ms[j].id
}

/// Some player has connection `c`.
pub open spec fn has_player(ps: Players, c: ClientId) -> bool {
    exists|i: int| 0 <= i < ps.len() && #[trigger] ps[i].0 == c
}

/// The player of connection `c`, if any.
pub open spec fn player_of(ps: Players, c: ClientId) -> Option<PlayerData> {
    if has_player(ps, c) {
        Some(ps[choose|i: int| 0 <= i < ps.len() && #[trigger] ps[i].0 == c].1)
    } else {
        None
    }
}

/// Some map has identifier `m`.
pub open spec fn has_map(ms: Seq<GameMap>, m: MapId) -> bool {
    exists|i: int| 0 <= i < ms.len() && #[trigger] ms[i].id == m
}

/// The map with identifier `m`, if any.
pub open spec fn map_of(ms: Seq<GameMap>, m: MapId) -> Option<GameMap> {
    if has_map(ms, m) {
        Some(ms[choose|i: int| 0 <= i < ms.len() && #[trigger] ms[i].id == m])
    } else {
        None
    }
}

/// Connections of the players on map `m`, but `skip`, in player order.
pub open spec fn ids_on(ps: Players, m: MapId, skip: Option<ClientId>) -> Seq<ClientId>
    decreases ps.len(),
{
    if ps.len() == 0 {
        Seq::empty()
    } else {
        let rest = ids_on(ps.drop_last(), m, skip);
        if ps.last().1.map == m && skip != Some(ps.last().0) {
            rest.push(ps.last().0)
        } else {
            rest
        }
    }
}

/// A map is freshly made with the given identifier and size.
pub open spec fn is_fresh_map(v: MapView, m: MapId, width: u32, height: u32) -> bool {
    &&& v.id == m
    &&& v.width == width
    &&& v.height == height
    &&& v.ground == empty_layer(cell_count(width, height))
    &&& v.mask == empty_layer(cell_count(width, height))
    &&& v.mask2 == empty_layer(cell_count(width, height))
    &&& v.fringe == empty_layer(cell_count(width, height))
    &&& v.areas.len() == 0
    &&& is_default_settings(v.settings)
}

/// With unique connections, the player at position `i` is the player of its
/// connection.
pub proof fn lemma_player_of(ps: Players, i: int)
    requires
        unique_players(ps),
        0 <= i < ps.len(),
    ensures
        has_player(ps, ps[i].0),
        player_of(ps, ps[i].0) == Some(ps[i].1),
        (choose|j: int| 0 <= j < ps.len() && #[trigger] ps[j].0 == ps[i].0) == i,
{
    assert(has_player(ps, ps[i].0));
    let j = choose|j: int| 0 <= j < ps.len() && #[trigger] ps[j].0 == ps[i].0;
    if j != i {
        if j < i {
            assert(ps[j].0 != ps[i].0);
        } else {
            assert(ps[i].0 != ps[j].0);
        }
    }
}

/// With unique identifiers, the map at position `i` is the map of its
/// identifier.
pub proof fn lemma_map_of(ms: Seq<GameMap>, i: int)
    requires
        unique_maps(ms),
        0 <= i < ms.len(),
    ensures
        has_map(ms, ms[i].id),
        map_of(ms, ms[i].id) == Some(ms[i]),
        (choose|j: int| 0 <= j < ms.len() && #[trigger] ms[j].id == ms[i].id) == i,
{
    assert(has_map(ms, ms[i].id));
    let j = choose|j: int| 0 <= j < ms.len() && #[trigger] ms[j].id == ms[i].id;
    if j != i {
        if j < i {
            assert(ms[j].id != ms[i].id);
        } else {
            assert(ms[i].id != ms[j].id);
        }
    }
}

/// An event is a server notice with this text, sent to `to`.
pub open spec fn is_notice(o: Outbound, to: Audience, text: Seq<char>) -> bool {
    &&& o.to == to
    &&& o.event matches ServerEvent::Message(ChatMessage::Server(t)) && t@ == text
}

/// Notice sent to the others when a player leaves.
pub open spec fn left_text(name: Seq<char>) -> Seq<char> {
    name + " has left the game."@
}

/// Notice sent to the others when a player joins.
pub open spec fn joined_text(name: Seq<char>) -> Seq<char> {
    name + " has joined the game."@
}

/// Notice sent to a player who just joined.
pub open spec fn welcome_text() -> Seq<char> {
    "Welcome to Game™!"@
}

/// A chat line as everybody sees it.
pub open spec fn say_text(name: Seq<char>, text: Seq<char>) -> Seq<char> {
    name + ": "@ + text
}

/// A player after a warp to map `m`.
pub open spec fn warped(p: PlayerData, m: MapId, params: WarpParams) -> PlayerData {
    PlayerData {
        map: m,
        position: match params.position {
            Some(q) => q,
            None => p.position,
        },
        direction: match params.direction {
            Some(d) => d,
            None => p.direction,
        },
        velocity: match params.velocity {
            Some(v) => v,
            None => p.velocity,
        },
        ..p
    }
}

/// For each player on map `m` but `c`, in player order, a join event for it
/// sent to `c` alone.
pub open spec fn join_events(ps: Players, m: MapId, c: ClientId) -> Seq<Outbound>
    decreases ps.len(),
{
    if ps.len() == 0 {
        Seq::empty()
    } else {
        let rest = join_events(ps.drop_last(), m, c);
        let (k, q) = ps.last();
        if q.map == m && k != c {
            rest.push(Outbound { to: Audience::Only(c), event: ServerEvent::PlayerJoined(k, summary_of(q)) })
        } else {
            rest
        }
    }
}

/// The events of a warp of connection `c` from record `p` (before) to
/// record `q` (after, on map `q.map` at revision `revision`), where `before`
/// and `after` are the players around it.
pub open spec fn warp_events(
    before: Players,
    after: Players,
    c: ClientId,
    p: PlayerData,
    q: PlayerData,
    revision: u64,
    initial: bool,
) -> Seq<Outbound> {
    let left = if initial {
        Seq::empty()
    } else {
        seq![Outbound { to: Audience::List(ids_on(before, p.map, Some(c))), event: ServerEvent::PlayerLeft(c) }]
    };
    let here = Audience::List(ids_on(after, q.map, None));
    left + seq![Outbound { to: Audience::Only(c), event: ServerEvent::ChangeMap(q.map, revision) }]
        + join_events(after, q.map, c) + seq![
        Outbound { to: here, event: ServerEvent::PlayerJoined(c, summary_of(q)) },
        Outbound {
            to: here,
            event: ServerEvent::PlayerMove {
                client_id: c,
                position: q.position,
                direction: q.direction,
                velocity: q.velocity,
            },
        },
    ]
}

/// Outcome of the disconnection of `c`. Without a player record nothing
/// changes. Otherwise the record is removed, the players left on its map are
/// told that it left, and everybody else gets a notice.
pub open spec fn disconnect_done(pre: GameServer, post: GameServer, c: ClientId) -> bool {
    &&& post.maps == pre.maps
    &&& post.pending_saves == pre.pending_saves
    &&& !has_player(pre.players@, c) ==> post.players == pre.players && post.queue_spec() == pre.queue_spec()
    &&& has_player(pre.players@, c) ==> {
        let p = player_of(pre.players@, c)->0;
        let n = pre.queue_spec().len() as int;
        &&& exists|i: int|
            0 <= i < pre.players@.len() && pre.players@[i].0 == c && post.players@ == pre.players@.remove(i)
        &&& !has_player(post.players@, c)
        &&& post.queue_spec().len() == n + 2
        &&& post.queue_spec().subrange(0, n) == pre.queue_spec()
        &&& post.queue_spec()[n] == (Outbound {
            to: Audience::List(ids_on(post.players@, p.map, None)),
            event: ServerEvent::PlayerLeft(c),
        })
        &&& is_notice(post.queue_spec()[n + 1], Audience::Exclude(c), left_text(p.name@))
    }
}

/// Why the stored maps cannot be served.
#[derive(Clone, Copy, Debug, PartialEq, Eq, Structural)]
pub enum MapLoadError {
    /// A map whose layers do not all hold `width * height` cells.
    Malformed(MapId),
    /// Two maps with one identifier.
    Duplicate(MapId),
}

/// Tile column of the spawn point.
pub const SPAWN_TILE_X: i64 = 10;

/// Tile row of the spawn point.
pub const SPAWN_TILE_Y: i64 = 7;

/// Where a new player appears.
pub open spec fn spawn_point() -> Point {
    Point {
        x: (SPAWN_TILE_X * TILE_SIZE * SUBPIXELS_PER_PIXEL) as i64,
        y: (SPAWN_TILE_Y * TILE_SIZE * SUBPIXELS_PER_PIXEL) as i64,
    }
}

/// The maps that the server starts with: the stored ones, followed by a fresh
/// start map when none was stored.
pub open spec fn startup_maps_ok(loaded: Seq<GameMap>, ms: Seq<GameMap>) -> bool {
    let start = MapId(crate::map::START_MAP);
    if has_map(loaded, start) {
        ms == loaded
    } else {
        &&& ms.len() == loaded.len() + 1
        &&& ms.drop_last() == loaded
        &&& is_fresh_map(ms.last()@, start, DEFAULT_MAP_WIDTH, DEFAULT_MAP_HEIGHT)
    }
}

/// Every stored map is well formed and no two share an identifier.
pub open spec fn stored_maps_valid(loaded: Seq<GameMap>) -> bool {
    &&& forall|i: int| 0 <= i < loaded.len() ==> #[trigger] loaded[i].wf()
    &&& unique_maps(loaded)
}

/// Checks the stored maps and adds the start map when it is missing.
pub fn load_maps(loaded: Vec<GameMap>) -> (r: Result<Vec<GameMap>, MapLoadError>)
    ensures
        r is Ok <==> stored_maps_valid(loaded@),
        r matches Ok(ms) ==> startup_maps_ok(loaded@, ms@),
        r matches Err(MapLoadError::Malformed(m)) ==> exists|i: int|
            0 <= i < loaded@.len() && !(#[trigger] loaded@[i]).wf() && loaded@[i].id == m,
        r matches Err(MapLoadError::Duplicate(m)) ==> exists|i: int, j: int|
            0 <= i < j < loaded@.len() && #[trigger] loaded@[i].id == m && #[trigger] loaded@[j].id
                == m,
{
    let mut i: usize = 0;
    while i < loaded.len()
        invariant
            i <= loaded@.len(),
            forall|a: int| 0 <= a < i ==> #[trigger] loaded@[a].wf(),
            forall|a: int, b: int| 0 <= a < b < i ==> #[trigger] loaded@[a].id != #[trigger] loaded@[b].id,
        decreases loaded@.len() - i,
    {
        if !loaded[i].is_valid() {
            return Err(MapLoadError::Malformed(loaded[i].id));
        }
        let mut j: usize = 0;
        while j < i
            invariant
                i < loaded@.len(),
                j <= i,
                forall|a: int| 0 <= a < j ==> #[trigger] loaded@[a].id != loaded@[i as int].id,
            decreases i - j,
        {
            if loaded[j].id == loaded[i].id {
                return Err(MapLoadError::Duplicate(loaded[i].id));
            }
            j = j + 1;
        }
        i = i + 1;
    }
    let start = MapId::start();
    let mut found = false;
    let mut k: usize = 0;
    while k < loaded.len()
        invariant
            k <= loaded@.len(),
            found <==> exists|a: int| 0 <= a < k && #[trigger] loaded@[a].id == start,
        decreases loaded@.len() - k,
    {
        if loaded[k].id == start {
            found = true;
        }
        k = k + 1;
    }
    assert(found <==> has_map(loaded@, start));
    let mut ms = loaded;
    if !found {
        let fresh = GameMap::new(start, DEFAULT_MAP_WIDTH, DEFAULT_MAP_HEIGHT);
        assert(fresh.layer_spec(crate::map::MapLayer::Ground) == fresh.ground@);
        assert(fresh.layer_spec(crate::map::MapLayer::Mask) == fresh.mask@);
        assert(fresh.layer_spec(crate::map::MapLayer::Mask2) == fresh.mask2@);
        assert(fresh.layer_spec(crate::map::MapLayer::Fringe) == fresh.fringe@);
        ms.push(fresh);
        assert(ms@.drop_last() =~= loaded@);
    }
    Ok(ms)
}

/// The state of the server.
#[derive(Debug)]
pub struct GameServer {
    pub players: Vec<(ClientId, PlayerData)>,
    pub maps: Vec<GameMap>,
    /// Events decided and not yet sent, in order.
    pub network_queue: Vec<Message>,
    /// Maps changed since the store was last asked, to be persisted.
    pub pending_saves: Vec<MapId>,
    /// Time of the current tick, in microseconds.
    pub time: u64,
    /// Time since the previous tick, in microseconds.
    pub dt: u64,
}

impl GameServer {
    /// The store's invariant: connections and map identifiers are unique,
    /// the start map and every player's map exist, and every map is well
    /// formed.
    pub open spec fn wf(&self) -> bool {
        &&& unique_players(self.players@)
        &&& unique_maps(self.maps@)
        &&& has_map(self.maps@, MapId(crate::map::START_MAP))
        &&& forall|i: int| 0 <= i < self.maps@.len() ==> #[trigger] self.maps@[i].wf()
        &&& forall|i: int|
            0 <= i < self.players@.len() ==> has_map(self.maps@, #[trigger] self.players@[i].1.map)
    }

    /// The queued events as mathematical values.
    pub open spec fn queue_spec(&self) -> Seq<Outbound> {
        self.network_queue@.map_values(|m: Message| m@)
    }

    /// A server with the given stored maps, no players and an empty queue,
    /// whose clock starts at `now`.
    pub fn new(loaded: Vec<GameMap>, now: u64) -> (r: Result<GameServer, MapLoadError>)
        ensures
            r is Ok <==> stored_maps_valid(loaded@),
            r matches Ok(s) ==> {
                &&& s.wf()
                &&& startup_maps_ok(loaded@, s.maps@)
                &&& s.players@.len() == 0
                &&& s.network_queue@.len() == 0
                &&& s.pending_saves@.len() == 0
                &&& s.time == now
                &&& s.dt == 0
            },
    {
        match load_maps(loaded) {
            Ok(maps) => {
                let s = GameServer {
                    players: Vec::new(),
                    maps,
                    network_queue: Vec::new(),
                    pending_saves: Vec::new(),
                    time: now,
                    dt: 0,
                };
                proof {
                    let start = MapId(crate::map::START_MAP);
                    if !has_map(loaded@, start) {
                        assert(s.maps@[s.maps@.len() - 1].id == start);
                        assert forall|i: int, j: int| 0 <= i < j < s.maps@.len() implies s.maps@[i].id != s.maps@[j].id by {
                            if j == s.maps@.len() - 1 {
                                assert(s.maps@[i] == loaded@[i]);
                            } else {
                                assert(s.maps@[i] == loaded@[i]);
                                assert(s.maps@[j] == loaded@[j]);
                            }
                        }
                        assert forall|i: int| 0 <= i < s.maps@.len() implies #[trigger] s.maps@[i].wf() by {
                            if i < s.maps@.len() - 1 {
                                assert(s.maps@[i] == loaded@[i]);
                            } else {
                                assert forall|l: crate::map::MapLayer| #[trigger] s.maps@[i].layer_spec(l).len()
                                    == cell_count(s.maps@[i].width, s.maps@[i].height) by {
                                    match l {
                                        crate::map::MapLayer::Ground => {},
                                        crate::map::MapLayer::Mask => {},
                                        crate::map::MapLayer::Mask2 => {},
                                        crate::map::MapLayer::Fringe => {},
                                    }
                                }
                            }
                        }
                    }
                }
                Ok(s)
            },
            Err(e) => Err(e),
        }
    }

    /// The record of a player who completes the handshake: the spawn point on
    /// the start map, facing south, standing still, with no name or sprite
    /// yet.
    pub fn load_player(&self, _id: &str) -> (r: PlayerData)
        ensures
            r.name@.len() == 0,
            r.sprite == 0,
            r.position == spawn_point(),
            r.direction == Direction::South,
            r.velocity is None,
            r.map == MapId(crate::map::START_MAP),
            r.last_message == self.time,
    {
        PlayerData {
            name: String::new(),
            sprite: 0,
            position: Point {
                x: SPAWN_TILE_X * TILE_SIZE * SUBPIXELS_PER_PIXEL,
                y: SPAWN_TILE_Y * TILE_SIZE * SUBPIXELS_PER_PIXEL,
            },
            direction: Direction::South,
            velocity: None,
            map: MapId::start(),
            last_message: self.time,
        }
    }

    /// Position of map `m`, made empty at the default size if it did not
    /// exist.
    pub fn ensure_map(&mut self, m: MapId) -> (r: usize)
        requires
            old(self).wf(),
        ensures
            final(self).wf(),
            r < final(self).maps@.len(),
            final(self).maps@[r as int].id == m,
            has_map(old(self).maps@, m) ==> final(self).maps == old(self).maps,
            !has_map(old(self).maps@, m) ==> {
                &&& final(self).maps@.drop_last() == old(self).maps@
                &&& final(self).maps@.len() == old(self).maps@.len() + 1
                &&& is_fresh_map(final(self).maps@.last()@, m, DEFAULT_MAP_WIDTH, DEFAULT_MAP_HEIGHT)
            },
            final(self).players == old(self).players,
            final(self).network_queue == old(self).network_queue,
            final(self).pending_saves == old(self).pending_saves,
            final(self).time == old(self).time,
            final(self).dt == old(self).dt,
    {
        match self.find_map(m) {
            Some(i) => i,
            None => {
                let fresh = GameMap::new(m, DEFAULT_MAP_WIDTH, DEFAULT_MAP_HEIGHT);
                assert(fresh.layer_spec(crate::map::MapLayer::Ground) == fresh.ground@);
                assert(fresh.layer_spec(crate::map::MapLayer::Mask) == fresh.mask@);
                assert(fresh.layer_spec(crate::map::MapLayer::Mask2) == fresh.mask2@);
                assert(fresh.layer_spec(crate::map::MapLayer::Fringe) == fresh.fringe@);
                self.maps.push(fresh);
                let n = self.maps.len() - 1;
                proof {
                    assert(self.maps@.drop_last() =~= old(self).maps@);
                    assert forall|i: int| 0 <= i < self.players@.len() implies has_map(
                        self.maps@,
                        #[trigger] self.players@[i].1.map,
                    ) by {
                        let pm = self.players@[i].1.map;
                        assert(has_map(old(self).maps@, pm));
                        let j = choose|j: int| 0 <= j < old(self).maps@.len() && #[trigger] old(self).maps@[j].id == pm;
                        assert(self.maps@[j] == old(self).maps@[j]);
                    }
                    assert forall|i: int| 0 <= i < self.maps@.len() implies #[trigger] self.maps@[i].wf() by {
                        if i < n {
                            assert(self.maps@[i] == old(self).maps@[i]);
                        }
                    }
                    assert forall|i: int, j: int| 0 <= i < j < self.maps@.len() implies self.maps@[i].id != self.maps@[j].id by {
                        assert(self.maps@[i] == old(self).maps@[i]);
                        if j < n {
                            assert(self.maps@[j] == old(self).maps@[j]);
                        }
                    }
                }
                n
            },
        }
    }

    /// Removes the player of connection `c`, if any: the players left on its
    /// map are told that it left, and everybody else gets a notice.
    pub fn handle_disconnect(&mut self, c: ClientId)
        requires
            old(self).wf(),
        ensures
            final(self).wf(),
            final(self).time == old(self).time,
            final(self).dt == old(self).dt,
            disconnect_done(*old(self), *final(self), c),
    {
        if let Some(i) = self.find_player(c) {
            proof {
                lemma_player_of(self.players@, i as int);
            }
            let (_, player) = self.players.remove(i);
            proof {
                let ps = self.players@;
                let ops = old(self).players@;
                assert forall|a: int, b: int| 0 <= a < b < ps.len() implies ps[a].0 != ps[b].0 by {
                    let a2 = if a < i { a } else { a + 1 };
                    let b2 = if b < i { b } else { b + 1 };
                    assert(ps[a] == ops[a2]);
                    assert(ps[b] == ops[b2]);
                }
                assert forall|a: int| 0 <= a < ps.len() implies has_map(self.maps@, #[trigger] ps[a].1.map) by {
                    let a2 = if a < i { a } else { a + 1 };
                    assert(ps[a] == ops[a2]);
                }
                assert forall|a: int| 0 <= a < ps.len() implies #[trigger] ps[a].0 != c by {
                    let a2 = if a < i { a } else { a + 1 };
                    assert(ps[a] == ops[a2]);
                    if a2 < i {
                        assert(ops[a2].0 != ops[i as int].0);
                    } else {
                        assert(ops[i as int].0 != ops[a2].0);
                    }
                }
            }
            let list = self.ids_on_map(player.map, None);
            self.queue(Message::list(list, ServerMessage::PlayerLeft(c)));
            let text = player.name.concat(" has left the game.");
            self.queue(Message::exclude(c, ServerMessage::Message(ChatMessage::Server(text))));
            assert(self.queue_spec().subrange(0, old(self).queue_spec().len() as int) =~= old(self).queue_spec());
        }
    }

    /// Warps the player of connection `c` to map `m`, which is made empty at
    /// the default size if it did not exist, and queues every event of the
    /// warp together (see [`warp_events`]). Nothing happens without such a
    /// player.
    pub fn warp_player(&mut self, c: ClientId, m: MapId, params: WarpParams)
        requires
            old(self).wf(),
        ensures
            final(self).wf(),
            final(self).pending_saves == old(self).pending_saves,
            final(self).time == old(self).time,
            final(self).dt == old(self).dt,
            !has_player(old(self).players@, c) ==> final(self).players == old(self).players
                && final(self).maps == old(self).maps && final(self).queue_spec() == old(
                self,
            ).queue_spec(),
            has_player(old(self).players@, c) ==> exists|i: int|
                {
                    &&& 0 <= i < old(self).players@.len()
                    &&& old(self).players@[i].0 == c
                    &&& final(self).players@ == old(self).players@.update(
                        i,
                        (c, warped(old(self).players@[i].1, m, params)),
                    )
                    &&& final(self).queue_spec() == old(self).queue_spec() + warp_events(
                        old(self).players@,
                        final(self).players@,
                        c,
                        old(self).players@[i].1,
                        warped(old(self).players@[i].1, m, params),
                        map_of(final(self).maps@, m)->0.settings.revision,
                        params.initial,
                    )
                },
            has_player(old(self).players@, c) && has_map(old(self).maps@, m) ==> final(self).maps
                == old(self).maps,
            has_player(old(self).players@, c) && !has_map(old(self).maps@, m) ==> {
                &&& final(self).maps@.drop_last() == old(self).maps@
                &&& final(self).maps@.len() == old(self).maps@.len() + 1
                &&& is_fresh_map(final(self).maps@.last()@, m, DEFAULT_MAP_WIDTH, DEFAULT_MAP_HEIGHT)
            },
    {
        let i = match self.find_player(c) {
            Some(i) => i,
            None => return,
        };
        let ghost q0 = self.queue_spec();
        let ghost before = self.players@;
        let old_player = self.players[i].1.clone();
        if !params.initial {
            let list = self.ids_on_map(old_player.map, Some(c));
            self.queue(Message::list(list, ServerMessage::PlayerLeft(c)));
        }
        let ghost q1 = self.queue_spec();
        let mi = self.ensure_map(m);
        let revision = self.maps[mi].settings.revision;
        proof {
            lemma_map_of(self.maps@, mi as int);
        }
        let new_player = PlayerData {
            name: old_player.name.clone(),
            sprite: old_player.sprite,
            position: match params.position {
                Some(q) => q,
                None => old_player.position,
            },
            direction: match params.direction {
                Some(d) => d,
                None => old_player.direction,
            },
            velocity: match params.velocity {
                Some(v) => v,
                None => old_player.velocity,
            },
            map: m,
            last_message: old_player.last_message,
        };
        assert(new_player == warped(old_player, m, params));
        let summary = new_player.summary();
        let position = new_player.position;
        let direction = new_player.direction;
        let velocity = new_player.velocity;
        self.players.set(i, (c, new_player));
        proof {
            let ps = self.players@;
            assert forall|a: int, b: int| 0 <= a < b < ps.len() implies ps[a].0 != ps[b].0 by {
                assert(before[a].0 != before[b].0);
            }
            assert forall|a: int| 0 <= a < ps.len() implies has_map(self.maps@, #[trigger] ps[a].1.map) by {
                if a == i {
                    assert(self.maps@[mi as int].id == m);
                } else {
                    assert(ps[a] == before[a]);
                }
            }
        }
        self.queue(Message::only(c, ServerMessage::ChangeMap(m, revision)));
        let ghost q2 = self.queue_spec();
        let mut k: usize = 0;
        while k < self.players.len()
            invariant
                self.wf(),
                k <= self.players@.len(),
                self.queue_spec() == q2 + join_events(self.players@.subrange(0, k as int), m, c),
                self.players@ == before.update(i as int, (c, warped(before[i as int].1, m, params))),
                self.pending_saves == old(self).pending_saves,
                self.time == old(self).time,
                self.dt == old(self).dt,
                mi < self.maps@.len(),
                self.maps@[mi as int].id == m,
                old(self).wf(),
                has_map(old(self).maps@, m) ==> self.maps == old(self).maps,
                !has_map(old(self).maps@, m) ==> {
                    &&& self.maps@.drop_last() == old(self).maps@
                    &&& self.maps@.len() == old(self).maps@.len() + 1
                    &&& is_fresh_map(self.maps@.last()@, m, DEFAULT_MAP_WIDTH, DEFAULT_MAP_HEIGHT)
                },
            decreases self.players@.len() - k,
        {
            let ghost pre = self.players@.subrange(0, k as int);
            if self.players[k].1.map == m && self.players[k].0 != c {
                let id = self.players[k].0;
                let s = self.players[k].1.summary();
                self.queue(Message::only(c, ServerMessage::PlayerJoined(id, s)));
            }
            k = k + 1;
            proof {
                assert(self.players@.subrange(0, k as int).drop_last() =~= pre);
            }
        }
        assert(self.players@.subrange(0, self.players@.len() as int) =~= self.players@);
        let here = self.ids_on_map(m, None);
        let occupants = here.clone();
        assert(occupants@ =~= here@);
        self.queue(Message::list(here, ServerMessage::PlayerJoined(c, summary)));
        self.queue(
            Message::list(
                occupants,
                ServerMessage::PlayerMove { client_id: c, position, direction, velocity },
            ),
        );
        proof {
            lemma_player_of(before, i as int);
            assert(self.queue_spec() =~= old(self).queue_spec() + warp_events(
                before,
                self.players@,
                c,
                before[i as int].1,
                warped(before[i as int].1, m, params),
                revision,
                params.initial,
            ));
        }
    }

    /// The map with identifier `m`, if any.
    pub fn map(&self, m: MapId) -> (r: Option<&GameMap>)
        requires
            self.wf(),
        ensures
            r is Some <==> has_map(self.maps@, m),
            r matches Some(g) ==> *g == map_of(self.maps@, m)->0,
    {
        match self.find_map(m) {
            Some(i) => {
                proof {
                    lemma_map_of(self.maps@, i as int);
                }
                Some(&self.maps[i])
            },
            None => None,
        }
    }

    /// Hands back the maps changed since the last call, in order, for the
    /// store to persist, and forgets them.
    pub fn take_pending_saves(&mut self) -> (r: Vec<MapId>)
        ensures
            r@ == old(self).pending_saves@,
            final(self).pending_saves@.len() == 0,
            final(self).players == old(self).players,
            final(self).maps == old(self).maps,
            final(self).network_queue == old(self).network_queue,
            final(self).time == old(self).time,
            final(self).dt == old(self).dt,
    {
        let mut r: Vec<MapId> = Vec::new();
        std::mem::swap(&mut r, &mut self.pending_saves);
        r
    }

    /// Position of connection `c` among the players.
    pub fn find_player(&self, c: ClientId) -> (r: Option<usize>)
        ensures
            r matches Some(i) ==> i < self.players@.len() && self.players@[i as int].0 == c,
            r is None <==> !has_player(self.players@, c),
    {
        let mut i: usize = 0;
        while i < self.players.len()
            invariant
                i <= self.players@.len(),
                forall|j: int| 0 <= j < i ==> #[trigger] self.players@[j].0 != c,
            decreases self.players@.len() - i,
        {
            if self.players[i].0 == c {
                return Some(i);
            }
            i = i + 1;
        }
        None
    }

    /// Position of map `m` among the maps.
    pub fn find_map(&self, m: MapId) -> (r: Option<usize>)
        ensures
            r matches Some(i) ==> i < self.maps@.len() && self.maps@[i as int].id == m,
            r is None <==> !has_map(self.maps@, m),
    {
        let mut i: usize = 0;
        while i < self.maps.len()
            invariant
                i <= self.maps@.len(),
                forall|j: int| 0 <= j < i ==> #[trigger] self.maps@[j].id != m,
            decreases self.maps@.len() - i,
        {
            if self.maps[i].id == m {
                return Some(i);
            }
            i = i + 1;
        }
        None
    }

    /// Connections of the players on map `m`, but `skip`, in player order.
    pub fn ids_on_map(&self, m: MapId, skip: Option<ClientId>) -> (r: Vec<ClientId>)
        ensures
            r@ == ids_on(self.players@, m, skip),
    {
        let mut out: Vec<ClientId> = Vec::new();
        let mut i: usize = 0;
        while i < self.players.len()
            invariant
                i <= self.players@.len(),
                out@ == ids_on(self.players@.subrange(0, i as int), m, skip),
            decreases self.players@.len() - i,
        {
            let ghost before = self.players@.subrange(0, i as int);
            let id = self.players[i].0;
            let on = self.players[i].1.map == m && match skip {
                Some(s) => s != id,
                None => true,
            };
            if on {
                out.push(id);
            }
            i = i + 1;
            proof {
                assert(self.players@.subrange(0, i as int).drop_last() =~= before);
            }
        }
        assert(self.players@.subrange(0, self.players@.len() as int) =~= self.players@);
        out
    }

    /// Appends an event to the outbound queue.
    pub fn queue(&mut self, message: Message)
        ensures
            final(self).queue_spec() == old(self).queue_spec().push(message@),
            final(self).players == old(self).players,
            final(self).maps == old(self).maps,
            final(self).pending_saves == old(self).pending_saves,
            final(self).time == old(self).time,
            final(self).dt == old(self).dt,
    {
        self.network_queue.push(message);
        assert(self.queue_spec() =~= old(self).queue_spec().push(message@));
    }

    /// Hands back every queued event, in order, for the transport to deliver,
    /// and empties the queue.
    pub fn send_all(&mut self) -> (r: Vec<Message>)
        ensures
            r@.map_values(|m: Message| m@) == old(self).queue_spec(),
            final(self).queue_spec().len() == 0,
            final(self).players == old(self).players,
            final(self).maps == old(self).maps,
            final(self).pending_saves == old(self).pending_saves,
            final(self).time == old(self).time,
            final(self).dt == old(self).dt,
    {
        let mut r: Vec<Message> = Vec::new();
        std::mem::swap(&mut r, &mut self.network_queue);
        assert(self.queue_spec() =~= Seq::<Outbound>::empty());
        r
    }
}

} // verus!
