//! The simulation tick: movement under velocity against map geometry, and
//! proximity messages.
use crate::geometry::{
    axis_offset, axis_offset_exec, contains_box, footprint, intersects, rect_box, rects_intersect,
    Box2, Point, SPRITE_SIZE, SUBPIXELS_PER_PIXEL, TILE_SIZE,
};
use crate::map::{Area, AreaData, GameMap};
use crate::protocol::{Audience, ChatMessage, ClientId, Message, Outbound, ServerEvent, ServerMessage};
use crate::server::{has_map, ids_on, lemma_map_of, map_of, GameServer, PlayerData, Players, MESSAGE_COOLDOWN};
use crate::dispatch::signal_done;
use crate::protocol::NetworkSignal;
use std::collections::VecDeque;
use vstd::prelude::*;

verus! {

/// The whole map, in world units.
pub open spec fn map_bounds(m: GameMap) -> Box2 {
    rect_box(
        0,
        0,
        m.width * TILE_SIZE * SUBPIXELS_PER_PIXEL,
        m.height * TILE_SIZE * SUBPIXELS_PER_PIXEL,
    )
}

/// The box of an area.
pub open spec fn area_box(a: Area) -> Box2 {
    rect_box(a.x as int, a.y as int, a.width as int, a.height as int)
}

/// Some blocking area overlaps box `b`.
pub open spec fn blocked_at(areas: Seq<Area>, b: Box2) -> bool {
    exists|i: int| 0 <= i < areas.len() && (#[trigger] areas[i]).data is Blocked && intersects(area_box(areas[i]), b)
}

/// A sprite may stand with its top-left corner at `(x, y)`: its footprint
/// lies within the map and overlaps no blocking area.
pub open spec fn can_stand(m: GameMap, x: int, y: int) -> bool {
    contains_box(map_bounds(m), footprint(x, y)) && !blocked_at(m.areas@, footprint(x, y))
}

/// Where a player ends a tick of `dt` microseconds on map `m`: the position
/// reached under its velocity where it may stand there, else where it was.
pub open spec fn resolved_position(m: GameMap, p: PlayerData, dt: u64) -> Point {
    match p.velocity {
        None => p.position,
        Some(v) => {
            let x = p.position.x + axis_offset(v.x as int, dt as int);
            let y = p.position.y + axis_offset(v.y as int, dt as int);
            if can_stand(m, x, y) {
                Point { x: x as i64, y: y as i64 }
            } else {
                p.position
            }
        },
    }
}

/// Text of the first proximity-message area, in map order, that overlaps
/// box `b`.
pub open spec fn log_hit(areas: Seq<Area>, b: Box2) -> Option<String>
    decreases areas.len(),
{
    if areas.len() == 0 {
        None
    } else {
        let r = log_hit(areas.drop_last(), b);
        if r is Some {
            r
        } else {
            match areas.last().data {
                AreaData::Log(t) => if intersects(area_box(areas.last()), b) {
                    Some(t)
                } else {
                    None
                },
                AreaData::Blocked => None,
            }
        }
    }
}

/// More than the cooldown has passed from `last` to `time`.
pub open spec fn cooldown_over(time: u64, last: u64) -> bool {
    time - last > MESSAGE_COOLDOWN
}

/// The proximity message a player at `position` gets at `time`, if any.
pub open spec fn proximity_message(m: GameMap, position: Point, last: u64, time: u64) -> Option<String> {
    if cooldown_over(time, last) {
        log_hit(m.areas@, footprint(position.x as int, position.y as int))
    } else {
        None
    }
}

/// A player's record after a tick.
pub open spec fn ticked(m: GameMap, p: PlayerData, time: u64, dt: u64) -> PlayerData {
    let q = resolved_position(m, p, dt);
    PlayerData {
        position: q,
        last_message: if proximity_message(m, q, p.last_message, time) is Some {
            time
        } else {
            p.last_message
        },
        ..p
    }
}

/// Events of one player's tick: its new position to every player on its map
/// when it moved, then its proximity message to it alone.
pub open spec fn player_tick_events(ps: Players, m: GameMap, k: ClientId, p: PlayerData, time: u64, dt: u64) -> Seq<Outbound> {
    let q = resolved_position(m, p, dt);
    let moved = if q != p.position {
        seq![Outbound { to: Audience::List(ids_on(ps, p.map, None)), event: ServerEvent::PlayerMove { client_id: k, position: q, direction: p.direction, velocity: p.velocity } }]
    } else {
        Seq::empty()
    };
    let told = match proximity_message(m, q, p.last_message, time) {
        Some(t) => seq![Outbound { to: Audience::Only(k), event: ServerEvent::Message(ChatMessage::Server(t)) }],
        None => Seq::empty(),
    };
    moved + told
}

/// Events of the ticks of the first `n` players, in player order.
pub open spec fn tick_events(ps: Players, ms: Seq<GameMap>, time: u64, dt: u64, n: nat) -> Seq<Outbound>
    decreases n,
{
    if n == 0 {
        Seq::empty()
    } else {
        let k = (n - 1) as int;
        tick_events(ps, ms, time, dt, (n - 1) as nat) + player_tick_events(ps, map_of(ms, ps[k].1.map)->0, ps[k].0, ps[k].1, time, dt)
    }
}

/// A tick never resolves a player to a place where it may not stand: it
/// stays where it was, or it ends where its footprint lies within the map
/// and overlaps no blocking area.
pub proof fn lemma_tick_lands_clear(m: GameMap, p: PlayerData, dt: u64)
    ensures
        ({
            let q = resolved_position(m, p, dt);
            q == p.position || can_stand(m, q.x as int, q.y as int)
        }),
{
    if let Some(v) = p.velocity {
        let x = p.position.x + axis_offset(v.x as int, dt as int);
        let y = p.position.y + axis_offset(v.y as int, dt as int);
        if can_stand(m, x, y) {
            assert(m.width * TILE_SIZE * SUBPIXELS_PER_PIXEL <= 0xffff_ffff * 48000);
            assert(m.height * TILE_SIZE * SUBPIXELS_PER_PIXEL <= 0xffff_ffff * 48000);
        }
    }
}

/// A player whose destination footprint overlaps a blocking area does not
/// move in that tick.
pub proof fn lemma_blocked_destination_keeps_position(m: GameMap, p: PlayerData, dt: u64, i: int)
    requires
        p.velocity is Some,
        0 <= i < m.areas@.len(),
        m.areas@[i].data is Blocked,
        intersects(
            area_box(m.areas@[i]),
            footprint(
                p.position.x + axis_offset(p.velocity->0.x as int, dt as int),
                p.position.y + axis_offset(p.velocity->0.y as int, dt as int),
            ),
        ),
    ensures
        resolved_position(m, p, dt) == p.position,
{
}

/// Where a player ends after a run of steps on map `m`, each one a velocity
/// that it reports for its current position, followed by a tick of the given
/// length.
pub open spec fn after_steps(m: GameMap, p: PlayerData, steps: Seq<(Option<crate::geometry::Velocity>, u64)>) -> Point
    decreases steps.len(),
{
    if steps.len() == 0 {
        p.position
    } else {
        let moving = PlayerData { velocity: steps[0].0, ..p };
        let q = resolved_position(m, moving, steps[0].1);
        after_steps(m, PlayerData { position: q, ..moving }, steps.drop_first())
    }
}

/// However a player steers, a player who may stand where it is never reaches
/// a place where it may not: its footprint stays within the map and off
/// every blocking area.
pub proof fn lemma_steps_stay_clear(m: GameMap, p: PlayerData, steps: Seq<(Option<crate::geometry::Velocity>, u64)>)
    requires
        can_stand(m, p.position.x as int, p.position.y as int),
    ensures
        ({
            let q = after_steps(m, p, steps);
            can_stand(m, q.x as int, q.y as int)
        }),
    decreases steps.len(),
{
    if steps.len() > 0 {
        let moving = PlayerData { velocity: steps[0].0, ..p };
        lemma_tick_lands_clear(m, moving, steps[0].1);
        let q = resolved_position(m, moving, steps[0].1);
        lemma_steps_stay_clear(m, PlayerData { position: q, ..moving }, steps.drop_first());
    }
}

/// Proximity messages keep their cooldown. Where a player gets a message in
/// a tick at `t1`, a tick at any `t2` from `t1` to one cooldown later gives it
/// none, and a tick more than one cooldown later gives it one wherever its
/// footprint then overlaps a proximity-message area.
pub proof fn lemma_proximity_cooldown(m: GameMap, p: PlayerData, t1: u64, dt1: u64, t2: u64, dt2: u64)
    requires
        proximity_message(m, resolved_position(m, p, dt1), p.last_message, t1) is Some,
        t1 <= t2,
    ensures
        ({
            let after_first = ticked(m, p, t1, dt1);
            let q2 = resolved_position(m, after_first, dt2);
            &&& after_first.last_message == t1
            &&& t2 - t1 <= MESSAGE_COOLDOWN ==> proximity_message(m, q2, after_first.last_message, t2) is None
                && ticked(m, after_first, t2, dt2).last_message == t1
            &&& t2 - t1 > MESSAGE_COOLDOWN && log_hit(m.areas@, footprint(q2.x as int, q2.y as int)) is Some
                ==> proximity_message(m, q2, after_first.last_message, t2) is Some
                && ticked(m, after_first, t2, dt2).last_message == t2
        }),
{
}

/// Players with the same connections on the same maps share the lists of
/// who is on a map.
pub proof fn lemma_ids_on_same(a: Players, b: Players, m: crate::map::MapId, skip: Option<ClientId>)
    requires
        a.len() == b.len(),
        forall|i: int| 0 <= i < a.len() ==> #[trigger] a[i].0 == b[i].0 && a[i].1.map == b[i].1.map,
    ensures
        ids_on(a, m, skip) == ids_on(b, m, skip),
    decreases a.len(),
{
    if a.len() > 0 {
        lemma_ids_on_same(a.drop_last(), b.drop_last(), m, skip);
    }
}

/// Executable [`can_stand`].
pub fn can_stand_exec(m: &GameMap, x: i128, y: i128) -> (r: bool)
    requires
        -0x0100_0000_0000_0000_0000_0000_0000_0000i128 <= x <= 0x0100_0000_0000_0000_0000_0000_0000_0000i128,
        -0x0100_0000_0000_0000_0000_0000_0000_0000i128 <= y <= 0x0100_0000_0000_0000_0000_0000_0000_0000i128,
    ensures
        r == can_stand(*m, x as int, y as int),
{
    let size: i128 = (SPRITE_SIZE * SUBPIXELS_PER_PIXEL) as i128;
    let w: i128 = m.width as i128 * (TILE_SIZE * SUBPIXELS_PER_PIXEL) as i128;
    let h: i128 = m.height as i128 * (TILE_SIZE * SUBPIXELS_PER_PIXEL) as i128;
    let fy: i128 = y + size / 2;
    let inside = 0 <= x && x + size <= w && 0 <= fy && fy + size / 2 <= h;
    if !inside {
        return false;
    }
    let mut k: usize = 0;
    while k < m.areas.len()
        invariant
            k <= m.areas@.len(),
            -0x0100_0000_0000_0000_0000_0000_0000_0000i128 <= x <= 0x0100_0000_0000_0000_0000_0000_0000_0000i128,
            -0x0100_0000_0000_0000_0000_0000_0000_0000i128 <= y <= 0x0100_0000_0000_0000_0000_0000_0000_0000i128,
            fy == y + size / 2,
            size == SPRITE_SIZE * SUBPIXELS_PER_PIXEL,
            contains_box(map_bounds(*m), footprint(x as int, y as int)),
            forall|j: int| 0 <= j < k ==> !((#[trigger] m.areas@[j]).data is Blocked && intersects(area_box(m.areas@[j]), footprint(x as int, y as int))),
        decreases m.areas@.len() - k,
    {
        let a = &m.areas[k];
        let hit = match a.data {
            AreaData::Blocked => rects_intersect(a.x as i128, a.y as i128, a.width as i128, a.height as i128, x, fy, size, size / 2),
            AreaData::Log(_) => false,
        };
        if hit {
            return false;
        }
        k = k + 1;
    }
    true
}

/// Executable [`log_hit`] for the footprint at `(x, y)`.
pub fn log_hit_exec(m: &GameMap, x: i64, y: i64) -> (r: Option<String>)
    ensures
        r == log_hit(m.areas@, footprint(x as int, y as int)),
{
    let size: i128 = (SPRITE_SIZE * SUBPIXELS_PER_PIXEL) as i128;
    let fy: i128 = y as i128 + size / 2;
    let mut found: Option<String> = None;
    let mut k: usize = 0;
    while k < m.areas.len()
        invariant
            k <= m.areas@.len(),
            found == log_hit(m.areas@.subrange(0, k as int), footprint(x as int, y as int)),
            fy == y + size / 2,
            size == SPRITE_SIZE * SUBPIXELS_PER_PIXEL,
        decreases m.areas@.len() - k,
    {
        let ghost pre = m.areas@.subrange(0, k as int);
        if found.is_none() {
            let a = &m.areas[k];
            match &a.data {
                AreaData::Log(t) => {
                    if rects_intersect(a.x as i128, a.y as i128, a.width as i128, a.height as i128, x as i128, fy, size, size / 2) {
                        found = Some(t.clone());
                    }
                },
                AreaData::Blocked => {},
            }
        }
        k = k + 1;
        assert(m.areas@.subrange(0, k as int).drop_last() =~= pre);
    }
    assert(m.areas@.subrange(0, m.areas@.len() as int) =~= m.areas@);
    found
}

/// Outcome of the simulation over every player: each record is ticked on
/// its map and the events of the ticks are queued in player order.
pub open spec fn simulated(pre: GameServer, post: GameServer) -> bool {
    &&& post.maps == pre.maps
    &&& post.pending_saves == pre.pending_saves
    &&& post.time == pre.time
    &&& post.dt == pre.dt
    &&& post.players@.len() == pre.players@.len()
    &&& forall|i: int| 0 <= i < pre.players@.len() ==> #[trigger] post.players@[i] == (
        pre.players@[i].0,
        ticked(map_of(pre.maps@, pre.players@[i].1.map)->0, pre.players@[i].1, pre.time, pre.dt),
    )
    &&& post.queue_spec() == pre.queue_spec() + tick_events(pre.players@, pre.maps@, pre.time, pre.dt, pre.players@.len())
}

/// Outcome of starting a tick at `now`: the time since the previous tick is
/// measured, and a clock that went backwards counts as no time.
pub open spec fn started(pre: GameServer, post: GameServer, now: u64) -> bool {
    &&& now >= pre.time ==> post.time == now && post.dt == now - pre.time
    &&& now < pre.time ==> post.time == pre.time && post.dt == 0
    &&& post.players == pre.players
    &&& post.maps == pre.maps
    &&& post.network_queue == pre.network_queue
    &&& post.pending_saves == pre.pending_saves
}

/// Each state of `states` follows from the one before by handling the
/// signal at the same position.
pub open spec fn dispatch_trace(states: Seq<GameServer>, signals: Seq<NetworkSignal>) -> bool {
    &&& states.len() == signals.len() + 1
    &&& forall|i: int| 0 <= i < signals.len() ==> #[trigger] signal_done(states[i], states[i + 1], signals[i])
}

/// Outcome of a whole tick at `now` over the signals received since the
/// previous one: the tick starts, every signal is handled in order, the
/// simulation runs, and everything queued in that order comes out as `out`.
pub open spec fn ran_tick(pre: GameServer, post: GameServer, now: u64, signals: Seq<NetworkSignal>, out: Seq<Outbound>) -> bool {
    exists|states: Seq<GameServer>, c: GameServer|
        #![trigger dispatch_trace(states, signals), simulated(states.last(), c)]
        {
            &&& started(pre, states[0], now)
            &&& dispatch_trace(states, signals)
            &&& simulated(states.last(), c)
            &&& out == c.queue_spec()
            &&& post.players == c.players
            &&& post.maps == c.maps
            &&& post.pending_saves == c.pending_saves
            &&& post.time == c.time
            &&& post.dt == c.dt
            &&& post.queue_spec().len() == 0
        }
}

impl GameServer {
    /// One tick at time `now`: handles every signal received since the
    /// previous tick, in order, then runs the simulation, and hands back
    /// everything to send, in the order it was decided.
    pub fn tick(&mut self, now: u64, signals: VecDeque<NetworkSignal>) -> (r: Vec<Message>)
        requires
            old(self).wf(),
        ensures
            final(self).wf(),
            ran_tick(*old(self), *final(self), now, signals@, r@.map_values(|m: Message| m@)),
    {
        self.begin_tick(now);
        let ghost all = signals@;
        let ghost mut states = seq![*self];
        let mut pending = signals;
        let ghost mut k: int = 0;
        assert(started(*old(self), states[0], now));
        while pending.len() > 0
            invariant
                self.wf(),
                0 <= k <= all.len(),
                pending@ == all.subrange(k, all.len() as int),
                dispatch_trace(states, all.subrange(0, k)),
                states.last() == *self,
                started(*old(self), states[0], now),
            decreases pending@.len(),
        {
            let signal = pending.pop_front().unwrap();
            self.handle_signal(signal);
            proof {
                let prev = states;
                states = states.push(*self);
                k = k + 1;
                assert forall|i: int| 0 <= i < k implies #[trigger] signal_done(states[i], states[i + 1], all.subrange(0, k)[i]) by {
                    if i < k - 1 {
                        assert(signal_done(prev[i], prev[i + 1], all.subrange(0, k - 1)[i]));
                    }
                }
                assert(pending@ =~= all.subrange(k, all.len() as int));
            }
        }
        assert(all.subrange(0, k) =~= all);
        self.update_players();
        let ghost c = *self;
        let out = self.send_all();
        assert(simulated(states.last(), c));
        out
    }

    /// Starts a tick at time `now`: the time since the previous tick is
    /// measured, and a clock that went backwards counts as no time.
    pub fn begin_tick(&mut self, now: u64)
        ensures
            now >= old(self).time ==> final(self).time == now && final(self).dt == now - old(self).time,
            now < old(self).time ==> final(self).time == old(self).time && final(self).dt == 0,
            final(self).players == old(self).players,
            final(self).maps == old(self).maps,
            final(self).network_queue == old(self).network_queue,
            final(self).pending_saves == old(self).pending_saves,
    {
        if now >= self.time {
            self.dt = now - self.time;
            self.time = now;
        } else {
            self.dt = 0;
        }
    }

    /// Runs the simulation over every player, in order: see [`ticked`] and
    /// [`tick_events`].
    pub fn update_players(&mut self)
        requires
            old(self).wf(),
        ensures
            final(self).wf(),
            simulated(*old(self), *final(self)),
    {
        let ghost ps0 = self.players@;
        let ghost q0 = self.queue_spec();
        let n = self.players.len();
        let mut i: usize = 0;
        while i < n
            invariant
                n == ps0.len(),
                i <= n,
                self.players@.len() == n,
                self.wf(),
                self.maps == old(self).maps,
                self.pending_saves == old(self).pending_saves,
                self.time == old(self).time,
                self.dt == old(self).dt,
                ps0 == old(self).players@,
                forall|j: int| 0 <= j < n ==> #[trigger] self.players@[j].0 == ps0[j].0 && self.players@[j].1.map == ps0[j].1.map,
                forall|j: int| 0 <= j < i ==> #[trigger] self.players@[j] == (
                    ps0[j].0,
                    ticked(map_of(self.maps@, ps0[j].1.map)->0, ps0[j].1, self.time, self.dt),
                ),
                forall|j: int| i <= j < n ==> #[trigger] self.players@[j] == ps0[j],
                self.queue_spec() == q0 + tick_events(ps0, self.maps@, self.time, self.dt, i as nat),
                q0 == old(self).queue_spec(),
            decreases n - i,
        {
            let id = self.players[i].0;
            let p = self.players[i].1.clone();
            assert(p == ps0[i as int].1);
            let mi = self.find_map(p.map).unwrap();
            proof {
                lemma_map_of(self.maps@, mi as int);
            }
            let ghost map = self.maps@[mi as int];
            let mut position = p.position;
            if let Some(v) = p.velocity {
                let nx: i128 = p.position.x as i128 + axis_offset_exec(v.x, self.dt);
                let ny: i128 = p.position.y as i128 + axis_offset_exec(v.y, self.dt);
                if can_stand_exec(&self.maps[mi], nx, ny) {
                    assert(map.width * TILE_SIZE * SUBPIXELS_PER_PIXEL <= 0xffff_ffff * 48000);
                    assert(map.height * TILE_SIZE * SUBPIXELS_PER_PIXEL <= 0xffff_ffff * 48000);
                    position = Point { x: nx as i64, y: ny as i64 };
                }
            }
            assert(position == resolved_position(map, p, self.dt));
            let ghost q_before = self.queue_spec();
            if position != p.position {
                let list = self.ids_on_map(p.map, None);
                proof {
                    lemma_ids_on_same(self.players@, ps0, p.map, None);
                }
                self.queue(
                    Message::list(
                        list,
                        ServerMessage::PlayerMove { client_id: id, position, direction: p.direction, velocity: p.velocity },
                    ),
                );
            }
            let mut last = p.last_message;
            if self.time > p.last_message && self.time - p.last_message > MESSAGE_COOLDOWN {
                match log_hit_exec(&self.maps[mi], position.x, position.y) {
                    Some(t) => {
                        self.queue(Message::only(id, ServerMessage::Message(ChatMessage::Server(t))));
                        last = self.time;
                    },
                    None => {},
                }
            }
            let ghost pre_players = self.players@;
            self.players.set(i, (id, PlayerData { position, last_message: last, ..p }));
            proof {
                assert(self.players@[i as int] == (ps0[i as int].0, ticked(map, p, self.time, self.dt)));
                assert(self.queue_spec() =~= q_before + player_tick_events(ps0, map, id, p, self.time, self.dt));
                assert(tick_events(ps0, self.maps@, self.time, self.dt, (i + 1) as nat) == tick_events(ps0, self.maps@, self.time, self.dt, i as nat)
                    + player_tick_events(ps0, map, id, p, self.time, self.dt));
                let ps = self.players@;
                assert forall|a: int, b: int| 0 <= a < b < ps.len() implies ps[a].0 != ps[b].0 by {
                    assert(pre_players[a].0 != pre_players[b].0);
                }
                assert forall|a: int| 0 <= a < ps.len() implies has_map(self.maps@, #[trigger] ps[a].1.map) by {
                    assert(has_map(self.maps@, pre_players[a].1.map));
                }
            }
            i = i + 1;
        }
    }
}

} // verus!
