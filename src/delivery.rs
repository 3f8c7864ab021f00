//! Who receives what: counting the events that reach one connection, and the
//! guarantees of the warp protocol stated over those counts.
use crate::map::MapId;
use crate::protocol::{reaches, Audience, ClientId, Outbound, ServerEvent};
use crate::server::{ids_on, join_events, summary_of, unique_players, warp_events, warped, Players, WarpParams};
use vstd::prelude::*;

verus! {

/// Number of events of `q` that reach connection `k` and satisfy `f`.
pub open spec fn count_received(q: Seq<Outbound>, k: ClientId, f: spec_fn(ServerEvent) -> bool) -> nat
    decreases q.len(),
{
    if q.len() == 0 {
        0
    } else {
        count_received(q.drop_last(), k, f) + if reaches(q.last().to, k) && f(q.last().event) {
            1nat
        } else {
            0nat
        }
    }
}

/// The event says that `c` left.
pub open spec fn left_of(c: ClientId) -> spec_fn(ServerEvent) -> bool {
    |e: ServerEvent| e == ServerEvent::PlayerLeft(c)
}

/// The event says that `c` joined.
pub open spec fn joined_of(c: ClientId) -> spec_fn(ServerEvent) -> bool {
    |e: ServerEvent| (e matches ServerEvent::PlayerJoined(x, _) && x == c)
}

/// The event places `c`.
pub open spec fn move_of(c: ClientId) -> spec_fn(ServerEvent) -> bool {
    |e: ServerEvent| (e matches ServerEvent::PlayerMove { client_id, .. } && client_id == c)
}

/// The event changes the receiver's map.
pub open spec fn change_map() -> spec_fn(ServerEvent) -> bool {
    |e: ServerEvent| e is ChangeMap
}

/// Connection `k` is on map `m` among players `ps`.
pub open spec fn is_on(ps: Players, k: ClientId, m: MapId) -> bool {
    exists|j: int| 0 <= j < ps.len() && #[trigger] ps[j].0 == k && ps[j].1.map == m
}

/// Counts add up over a concatenation.
pub proof fn lemma_count_concat(a: Seq<Outbound>, b: Seq<Outbound>, k: ClientId, f: spec_fn(ServerEvent) -> bool)
    ensures
        count_received(a + b, k, f) == count_received(a, k, f) + count_received(b, k, f),
    decreases b.len(),
{
    if b.len() == 0 {
        assert(a + b =~= a);
    } else {
        lemma_count_concat(a, b.drop_last(), k, f);
        assert((a + b).drop_last() =~= a + b.drop_last());
    }
}

/// The count over one event.
pub proof fn lemma_count_one(o: Outbound, k: ClientId, f: spec_fn(ServerEvent) -> bool)
    ensures
        count_received(seq![o], k, f) == if reaches(o.to, k) && f(o.event) {
            1nat
        } else {
            0nat
        },
{
    assert(seq![o].drop_last() =~= Seq::<Outbound>::empty());
    assert(count_received(Seq::<Outbound>::empty(), k, f) == 0);
    assert(seq![o].last() == o);
}

/// Who is in the list of players on a map.
pub proof fn lemma_ids_on_contains(ps: Players, m: MapId, skip: Option<ClientId>, k: ClientId)
    ensures
        ids_on(ps, m, skip).contains(k) <==> is_on(ps, k, m) && skip != Some(k),
    decreases ps.len(),
{
    if ps.len() > 0 {
        let rest = ps.drop_last();
        lemma_ids_on_contains(rest, m, skip, k);
        if is_on(rest, k, m) {
            let j = choose|j: int| 0 <= j < rest.len() && #[trigger] rest[j].0 == k && rest[j].1.map == m;
            assert(ps[j] == rest[j]);
        }
        if is_on(ps, k, m) {
            let j = choose|j: int| 0 <= j < ps.len() && #[trigger] ps[j].0 == k && ps[j].1.map == m;
            if j < ps.len() - 1 {
                assert(rest[j] == ps[j]);
            }
        }
        let r = ids_on(rest, m, skip);
        if ps.last().1.map == m && skip != Some(ps.last().0) {
            assert(ids_on(ps, m, skip) == r.push(ps.last().0));
            if r.push(ps.last().0).contains(k) && !r.contains(k) {
                let x = choose|x: int| 0 <= x < r.len() + 1 && r.push(ps.last().0)[x] == k;
                assert(x == r.len());
            }
            if r.contains(k) {
                let x = choose|x: int| 0 <= x < r.len() && r[x] == k;
                assert(r.push(ps.last().0)[x] == k);
            }
            if ps.last().0 == k {
                assert(r.push(ps.last().0)[r.len() as int] == k);
            }
        }
    }
}

/// The joins sent to the mover reach nobody else, and say nothing of the
/// mover itself.
pub proof fn lemma_join_events_other(ps: Players, m: MapId, c: ClientId, k: ClientId, f: spec_fn(ServerEvent) -> bool)
    requires
        k != c || forall|e: ServerEvent| #[trigger] f(e) ==> !(e is PlayerJoined),
    ensures
        count_received(join_events(ps, m, c), k, f) == 0,
    decreases ps.len(),
{
    if ps.len() > 0 {
        lemma_join_events_other(ps.drop_last(), m, c, k, f);
        let (x, q) = ps.last();
        if q.map == m && x != c {
            let o = Outbound { to: Audience::Only(c), event: ServerEvent::PlayerJoined(x, summary_of(q)) };
            assert(join_events(ps, m, c).drop_last() =~= join_events(ps.drop_last(), m, c));
            assert(join_events(ps, m, c).last() == o);
        }
    }
}

/// The joins sent to the mover never name the mover.
pub proof fn lemma_join_events_not_mover(ps: Players, m: MapId, c: ClientId, k: ClientId)
    ensures
        count_received(join_events(ps, m, c), k, joined_of(c)) == 0,
    decreases ps.len(),
{
    if ps.len() > 0 {
        lemma_join_events_not_mover(ps.drop_last(), m, c, k);
        let (x, q) = ps.last();
        if q.map == m && x != c {
            assert(join_events(ps, m, c).drop_last() =~= join_events(ps.drop_last(), m, c));
        }
    }
}

/// The joins sent to the mover name each other player on the map once.
pub proof fn lemma_join_events_once(ps: Players, m: MapId, c: ClientId, k: ClientId)
    requires
        unique_players(ps),
        k != c,
    ensures
        count_received(join_events(ps, m, c), c, joined_of(k)) == if is_on(ps, k, m) {
            1nat
        } else {
            0nat
        },
    decreases ps.len(),
{
    if ps.len() > 0 {
        let rest = ps.drop_last();
        assert(unique_players(rest)) by {
            assert forall|i: int, j: int| 0 <= i < j < rest.len() implies #[trigger] rest[i].0 != #[trigger] rest[j].0 by {
                assert(ps[i].0 != ps[j].0);
            }
        }
        lemma_join_events_once(rest, m, c, k);
        let (x, q) = ps.last();
        if is_on(rest, k, m) {
            let j = choose|j: int| 0 <= j < rest.len() && #[trigger] rest[j].0 == k && rest[j].1.map == m;
            assert(ps[j] == rest[j]);
            assert(ps[j].0 != ps[ps.len() - 1].0);
        }
        if is_on(ps, k, m) && !is_on(rest, k, m) {
            let j = choose|j: int| 0 <= j < ps.len() && #[trigger] ps[j].0 == k && ps[j].1.map == m;
            if j < ps.len() - 1 {
                assert(rest[j] == ps[j]);
            }
        }
        if q.map == m && x != c {
            assert(join_events(ps, m, c).drop_last() =~= join_events(rest, m, c));
        }
    }
}

/// The warp protocol tells each observer exactly once what it must learn.
/// Where connection `c`, at position `i` among players `before` with unique
/// connections, leaves map `A` (its map before) for map `B = m`, not as its
/// initial warp:
/// every other connection on `A` gets one `PlayerLeft` for `c`; every
/// connection on `B` afterwards, `c` included, gets one `PlayerJoined` and one
/// `PlayerMove` for `c`; and `c` gets one `ChangeMap` and one `PlayerJoined`
/// for each other player on `B`.
pub proof fn lemma_warp_delivers_once(
    before: Players,
    i: int,
    m: MapId,
    params: WarpParams,
    revision: u64,
)
    requires
        unique_players(before),
        0 <= i < before.len(),
        !params.initial,
    ensures
        ({
            let c = before[i].0;
            let p = before[i].1;
            let q = warped(p, m, params);
            let after = before.update(i, (c, q));
            let events = warp_events(before, after, c, p, q, revision, false);
            &&& forall|k: ClientId|
                k != c && is_on(before, k, p.map) ==> #[trigger] count_received(events, k, left_of(c)) == 1
            &&& forall|k: ClientId|
                is_on(after, k, m) ==> #[trigger] count_received(events, k, joined_of(c)) == 1
                    && count_received(events, k, move_of(c)) == 1
            &&& count_received(events, c, change_map()) == 1
            &&& forall|k: ClientId|
                k != c && is_on(after, k, m) ==> #[trigger] count_received(events, c, joined_of(k)) == 1
        }),
{
    let c = before[i].0;
    let p = before[i].1;
    let q = warped(p, m, params);
    let after = before.update(i, (c, q));
    assert(unique_players(after)) by {
        assert forall|a: int, b: int| 0 <= a < b < after.len() implies #[trigger] after[a].0 != #[trigger] after[b].0 by {
            assert(before[a].0 != before[b].0);
        }
    }
    let here = Audience::List(ids_on(after, m, None));
    let e_left = Outbound { to: Audience::List(ids_on(before, p.map, Some(c))), event: ServerEvent::PlayerLeft(c) };
    let e_change = Outbound { to: Audience::Only(c), event: ServerEvent::ChangeMap(m, revision) };
    let joins = join_events(after, m, c);
    let e_joined = Outbound { to: here, event: ServerEvent::PlayerJoined(c, summary_of(q)) };
    let e_move = Outbound {
        to: here,
        event: ServerEvent::PlayerMove { client_id: c, position: q.position, direction: q.direction, velocity: q.velocity },
    };
    let events = warp_events(before, after, c, p, q, revision, false);
    assert(events =~= seq![e_left] + seq![e_change] + joins + seq![e_joined] + seq![e_move]);
    assert forall|k: ClientId, f: spec_fn(ServerEvent) -> bool| #[trigger] count_received(events, k, f)
        == count_received(seq![e_left], k, f) + count_received(seq![e_change], k, f) + count_received(joins, k, f)
        + count_received(seq![e_joined], k, f) + count_received(seq![e_move], k, f) by {
        lemma_count_concat(seq![e_left], seq![e_change], k, f);
        lemma_count_concat(seq![e_left] + seq![e_change], joins, k, f);
        lemma_count_concat(seq![e_left] + seq![e_change] + joins, seq![e_joined], k, f);
        lemma_count_concat(seq![e_left] + seq![e_change] + joins + seq![e_joined], seq![e_move], k, f);
        lemma_count_one(e_left, k, f);
        lemma_count_one(e_change, k, f);
        lemma_count_one(e_joined, k, f);
        lemma_count_one(e_move, k, f);
    }
    assert forall|k: ClientId| k != c && is_on(before, k, p.map) implies #[trigger] count_received(events, k, left_of(c)) == 1 by {
        lemma_ids_on_contains(before, p.map, Some(c), k);
        lemma_count_one(e_left, k, left_of(c));
        lemma_count_one(e_change, k, left_of(c));
        lemma_count_one(e_joined, k, left_of(c));
        lemma_count_one(e_move, k, left_of(c));
        lemma_join_events_other(after, m, c, k, left_of(c));
    }
    assert forall|k: ClientId| is_on(after, k, m) implies #[trigger] count_received(events, k, joined_of(c)) == 1
        && count_received(events, k, move_of(c)) == 1 by {
        lemma_ids_on_contains(after, m, None, k);
        lemma_count_one(e_left, k, joined_of(c));
        lemma_count_one(e_change, k, joined_of(c));
        lemma_count_one(e_joined, k, joined_of(c));
        lemma_count_one(e_move, k, joined_of(c));
        lemma_count_one(e_left, k, move_of(c));
        lemma_count_one(e_change, k, move_of(c));
        lemma_count_one(e_joined, k, move_of(c));
        lemma_count_one(e_move, k, move_of(c));
        lemma_join_events_not_mover(after, m, c, k);
        lemma_join_events_other(after, m, c, k, move_of(c));
    }
    assert(count_received(events, c, change_map()) == 1) by {
        lemma_count_one(e_left, c, change_map());
        lemma_count_one(e_change, c, change_map());
        lemma_count_one(e_joined, c, change_map());
        lemma_count_one(e_move, c, change_map());
        lemma_join_events_other(after, m, c, c, change_map());
    }
    assert forall|k: ClientId| k != c && is_on(after, k, m) implies #[trigger] count_received(events, c, joined_of(k)) == 1 by {
        lemma_count_one(e_left, c, joined_of(k));
        lemma_count_one(e_change, c, joined_of(k));
        lemma_count_one(e_joined, c, joined_of(k));
        lemma_count_one(e_move, c, joined_of(k));
        lemma_join_events_once(after, m, c, k);
    }
}

} // verus!
