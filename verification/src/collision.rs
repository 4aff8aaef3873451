//! Broad-phase collision detection: a pairwise axis-aligned bounding-box
//! overlap test over a position snapshot of every sized entity, emitting a
//! symmetric pair of events for every overlapping pair.

use vstd::prelude::*;
use vstd::math::abs;
use crate::components::{Extent, Pos};
use crate::events::Events;
use crate::store::{Entity, Store, StoreView};

verus! {

/// An ordered collision event: (dealer, receiver). Detection sends both
/// orderings of every overlapping pair, so either side's damage-dealing
/// component can be read regardless of enumeration order.
#[derive(Clone, Copy, PartialEq, Eq, Structural, Debug)]
pub struct CollisionEvent(pub Entity, pub Entity);

/// One snapshot row: an entity together with the position and extent it had
/// when the Detection stage began.
#[derive(Clone, Copy, PartialEq, Eq, Structural, Debug)]
pub struct Collider {
    pub entity: Entity,
    pub position: Pos,
    pub extent: Extent,
}

/// Axis-aligned overlap: the centers are closer than the half-extent sums
/// on both axes. Stated without division: |dx| < (w1+w2)/2 holds exactly
/// when 2|dx| < w1+w2.
pub open spec fn spec_overlaps(p1: Pos, x1: Extent, p2: Pos, x2: Extent) -> bool {
    &&& 2 * abs(p1.x - p2.x) < x1.w + x2.w
    &&& 2 * abs(p1.y - p2.y) < x1.h + x2.h
}

/// The overlap test, computed in a wide type so no input can overflow.
pub fn overlaps(p1: Pos, x1: Extent, p2: Pos, x2: Extent) -> (r: bool)
    ensures
        r == spec_overlaps(p1, x1, p2, x2),
{
    let dx: i128 = p1.x as i128 - p2.x as i128;
    let dy: i128 = p1.y as i128 - p2.y as i128;
    let adx: i128 = if dx < 0 { -dx } else { dx };
    let ady: i128 = if dy < 0 { -dy } else { dy };
    2 * adx < x1.w as i128 + x2.w as i128 && 2 * ady < x1.h as i128 + x2.h as i128
}

/// The two events an overlapping pair contributes; an empty sequence for a
/// non-overlapping pair.
pub open spec fn spec_pair(a: Collider, b: Collider) -> Seq<CollisionEvent> {
    if spec_overlaps(a.position, a.extent, b.position, b.extent) {
        seq![CollisionEvent(a.entity, b.entity), CollisionEvent(b.entity, a.entity)]
    } else {
        Seq::empty()
    }
}

/// Events of `s[j..]` each tested against the fixed collider `c`, in order.
pub open spec fn spec_pair_events_from(c: Collider, s: Seq<Collider>, j: int) -> Seq<
    CollisionEvent,
>
    decreases s.len() - j,
{
    if j < 0 || j >= s.len() {
        Seq::empty()
    } else {
        spec_pair(c, s[j]) + spec_pair_events_from(c, s, j + 1)
    }
}

/// Events of all unordered pairs (k, l) with i <= k < l, k enumerated
/// outermost — the emission order of the detection pass.
pub open spec fn spec_events_from(s: Seq<Collider>, i: int) -> Seq<CollisionEvent>
    decreases s.len() - i,
{
    if i < 0 || i >= s.len() {
        Seq::empty()
    } else {
        spec_pair_events_from(s[i], s, i + 1) + spec_events_from(s, i + 1)
    }
}

/// The full event sequence one detection pass over snapshot `s` emits.
pub open spec fn spec_detect(s: Seq<Collider>) -> Seq<CollisionEvent> {
    spec_events_from(s, 0)
}

/// Test every unordered pair of snapshot rows once and send both orderings
/// of each overlapping pair into the event log, appended in pass order.
pub fn detect_collisions(colliders: &Vec<Collider>, events: &mut Events<CollisionEvent>)
    ensures
        final(events)@ == old(events)@ + spec_detect(colliders@),
{
    let n = colliders.len();
    let mut i: usize = 0;
    while i < n
        invariant
            i <= n,
            n == colliders@.len(),
            events@ + spec_events_from(colliders@, i as int) == old(events)@ + spec_detect(
                colliders@,
            ),
        decreases n - i,
    {
        let ci = colliders[i];
        let mut j: usize = i + 1;
        while j < n
            invariant
                i < j <= n || (i + 1 > n && j == i + 1),
                i < n,
                n == colliders@.len(),
                ci == colliders@[i as int],
                events@ + spec_pair_events_from(ci, colliders@, j as int) + spec_events_from(
                    colliders@,
                    i as int + 1,
                ) == old(events)@ + spec_detect(colliders@),
            decreases n - j,
        {
            let cj = colliders[j];
            proof {
                assert(spec_pair_events_from(ci, colliders@, j as int) == spec_pair(ci, cj)
                    + spec_pair_events_from(ci, colliders@, j as int + 1));
            }
            if overlaps(ci.position, ci.extent, cj.position, cj.extent) {
                let ghost before = events@;
                events.send(CollisionEvent(ci.entity, cj.entity));
                events.send(CollisionEvent(cj.entity, ci.entity));
                proof {
                    assert(events@ + spec_pair_events_from(ci, colliders@, j as int + 1) =~= before
                        + spec_pair_events_from(ci, colliders@, j as int));
                    assert(events@ + spec_pair_events_from(ci, colliders@, j as int + 1)
                        + spec_events_from(colliders@, i as int + 1) =~= before
                        + spec_pair_events_from(ci, colliders@, j as int) + spec_events_from(
                        colliders@,
                        i as int + 1,
                    ));
                }
            } else {
                proof {
                    assert(spec_pair(ci, cj) =~= Seq::<CollisionEvent>::empty());
                    assert(events@ + spec_pair_events_from(ci, colliders@, j as int + 1)
                        =~= events@ + spec_pair_events_from(ci, colliders@, j as int));
                    assert(events@ + spec_pair_events_from(ci, colliders@, j as int + 1)
                        + spec_events_from(colliders@, i as int + 1) =~= events@
                        + spec_pair_events_from(ci, colliders@, j as int) + spec_events_from(
                        colliders@,
                        i as int + 1,
                    ));
                }
            }
            j = j + 1;
        }
        proof {
            assert(spec_pair_events_from(ci, colliders@, n as int) =~= Seq::<
                CollisionEvent,
            >::empty());
            assert(events@ + spec_events_from(colliders@, i as int + 1) =~= events@
                + spec_pair_events_from(ci, colliders@, n as int) + spec_events_from(
                colliders@,
                i as int + 1,
            ));
            assert(spec_events_from(colliders@, i as int) == spec_pair_events_from(
                colliders@[i as int],
                colliders@,
                i as int + 1,
            ) + spec_events_from(colliders@, i as int + 1));
        }
        i = i + 1;
    }
    proof {
        assert(spec_events_from(colliders@, n as int) =~= Seq::<CollisionEvent>::empty());
        assert(events@ + spec_events_from(colliders@, n as int) =~= events@);
    }
}

/// Does slot `i` of the store qualify for detection: occupied, positioned
/// and sized?
pub open spec fn spec_qualifies(v: StoreView, i: int) -> bool {
    &&& v.slots[i].alive
    &&& v.slots[i].set.position is Some
    &&& v.slots[i].set.extent is Some
}

/// The snapshot row slot `i` contributes.
pub open spec fn spec_collider_at(v: StoreView, i: int) -> Collider {
    Collider {
        entity: Entity { slot: i as usize, generation: v.slots[i].generation },
        position: v.slots[i].set.position->0,
        extent: v.slots[i].set.extent->0,
    }
}

/// The snapshot rows of slots below `n`, in slot order.
pub open spec fn spec_colliders_upto(v: StoreView, n: int) -> Seq<Collider>
    decreases n,
{
    if n <= 0 {
        Seq::empty()
    } else {
        spec_colliders_upto(v, n - 1) + (if spec_qualifies(v, n - 1) {
            seq![spec_collider_at(v, n - 1)]
        } else {
            Seq::empty()
        })
    }
}

/// The detection snapshot: every entity holding both a position and an
/// extent, in slot order.
pub open spec fn spec_colliders(v: StoreView) -> Seq<Collider> {
    spec_colliders_upto(v, v.slots.len() as int)
}

/// Collect the snapshot at the start of the Detection stage, so in-stage
/// position writes cannot change this pass's results.
pub fn collect_colliders(store: &Store) -> (r: Vec<Collider>)
    ensures
        r@ == spec_colliders(store@),
{
    let mut out: Vec<Collider> = Vec::new();
    let mut i: usize = 0;
    while i < store.slots.len()
        invariant
            i <= store.slots@.len(),
            out@ == spec_colliders_upto(store@, i as int),
        decreases store.slots@.len() - i,
    {
        let sl = store.slots[i];
        if sl.alive {
            if let Some(p) = sl.set.position {
                if let Some(x) = sl.set.extent {
                    out.push(
                        Collider {
                            entity: Entity { slot: i, generation: sl.generation },
                            position: p,
                            extent: x,
                        },
                    );
                }
            }
        }
        proof {
            if spec_qualifies(store@, i as int) {
                assert(out@ =~= spec_colliders_upto(store@, i as int) + seq![
                    spec_collider_at(store@, i as int),
                ]);
            } else {
                assert(out@ =~= spec_colliders_upto(store@, i as int) + Seq::<Collider>::empty());
            }
        }
        i = i + 1;
    }
    out
}

/// The whole Detection stage: snapshot, then the pairwise pass.
pub fn collision_detection(store: &Store, events: &mut Events<CollisionEvent>)
    ensures
        final(events)@ == old(events)@ + spec_detect(spec_colliders(store@)),
{
    let colliders = collect_colliders(store);
    detect_collisions(&colliders, events);
}

} // verus!

verus! {

/// How many times `ev` occurs in `s`.
pub open spec fn spec_count(s: Seq<CollisionEvent>, ev: CollisionEvent) -> int
    decreases s.len(),
{
    if s.len() == 0 {
        0
    } else {
        (if s[0] == ev {
            1int
        } else {
            0int
        }) + spec_count(s.skip(1), ev)
    }
}

/// Counting distributes over concatenation.
pub proof fn lemma_count_concat(a: Seq<CollisionEvent>, b: Seq<CollisionEvent>, ev: CollisionEvent)
    ensures
        spec_count(a + b, ev) == spec_count(a, ev) + spec_count(b, ev),
    decreases a.len(),
{
    if a.len() == 0 {
        assert(a + b =~= b);
    } else {
        assert((a + b)[0] == a[0]);
        assert((a + b).skip(1) =~= a.skip(1) + b);
        lemma_count_concat(a.skip(1), b, ev);
    }
}

/// The count in a two-element sequence, spelled out.
proof fn lemma_count_two(e1: CollisionEvent, e2: CollisionEvent, ev: CollisionEvent)
    ensures
        spec_count(seq![e1, e2], ev) == (if e1 == ev {
            1int
        } else {
            0int
        }) + (if e2 == ev {
            1int
        } else {
            0int
        }),
{
    let s = seq![e1, e2];
    assert(s.skip(1) =~= seq![e2]);
    assert(seq![e2].skip(1) =~= Seq::<CollisionEvent>::empty());
    assert(spec_count(seq![e2], ev) == (if e2 == ev {
        1int
    } else {
        0int
    }) + spec_count(Seq::<CollisionEvent>::empty(), ev));
}

/// Every snapshot entity appears at most once.
pub open spec fn spec_distinct_entities(s: Seq<Collider>) -> bool {
    forall|k: int, l: int| 0 <= k < l < s.len() ==> s[k].entity != s[l].entity
}

/// No pairing of `c` against `s[j..]` can produce `ev` when `ev` matches
/// none of those pairs in either orientation.
proof fn lemma_pair_events_zero(c: Collider, s: Seq<Collider>, j: int, ev: CollisionEvent)
    requires
        forall|k: int|
            j <= k < s.len() ==> (ev.0 != c.entity || ev.1 != (#[trigger] s[k]).entity) && (ev.0
                != s[k].entity || ev.1 != c.entity),
    ensures
        spec_count(spec_pair_events_from(c, s, j), ev) == 0,
    decreases s.len() - j,
{
    if j < 0 || j >= s.len() {
    } else {
        lemma_count_concat(spec_pair(c, s[j]), spec_pair_events_from(c, s, j + 1), ev);
        if spec_overlaps(c.position, c.extent, s[j].position, s[j].extent) {
            lemma_count_two(
                CollisionEvent(c.entity, s[j].entity),
                CollisionEvent(s[j].entity, c.entity),
                ev,
            );
        }
        lemma_pair_events_zero(c, s, j + 1, ev);
    }
}

/// Pairing `c` against `s[j..]` yields the event of `c` and `s[t]` exactly
/// once when they overlap and never when they do not, in either
/// orientation.
proof fn lemma_pair_events_count(
    c: Collider,
    s: Seq<Collider>,
    j: int,
    t: int,
    ev: CollisionEvent,
)
    requires
        spec_distinct_entities(s),
        forall|k: int| j <= k < s.len() ==> c.entity != (#[trigger] s[k]).entity,
        0 <= j <= t < s.len(),
        ev == CollisionEvent(c.entity, s[t].entity) || ev == CollisionEvent(s[t].entity, c.entity),
    ensures
        spec_count(spec_pair_events_from(c, s, j), ev) == (if spec_overlaps(
            c.position,
            c.extent,
            s[t].position,
            s[t].extent,
        ) {
            1int
        } else {
            0int
        }),
    decreases s.len() - j,
{
    lemma_count_concat(spec_pair(c, s[j]), spec_pair_events_from(c, s, j + 1), ev);
    if spec_overlaps(c.position, c.extent, s[j].position, s[j].extent) {
        lemma_count_two(
            CollisionEvent(c.entity, s[j].entity),
            CollisionEvent(s[j].entity, c.entity),
            ev,
        );
    }
    if j == t {
        assert forall|k: int|
            j + 1 <= k < s.len() implies (ev.0 != c.entity || ev.1 != (#[trigger] s[k]).entity)
            && (ev.0 != s[k].entity || ev.1 != c.entity) by {
            assert(s[k].entity != s[t].entity);
        }
        lemma_pair_events_zero(c, s, j + 1, ev);
    } else {
        assert(s[j].entity != s[t].entity);
        lemma_pair_events_count(c, s, j + 1, t, ev);
    }
}

/// A pass over `s[i..]` emits no event whose named component entity does
/// not appear there at all.
proof fn lemma_events_from_zero(s: Seq<Collider>, i: int, ev: CollisionEvent)
    requires
        (forall|k: int| i <= k < s.len() ==> (#[trigger] s[k]).entity != ev.0) || (forall|k: int|
            i <= k < s.len() ==> (#[trigger] s[k]).entity != ev.1),
    ensures
        spec_count(spec_events_from(s, i), ev) == 0,
    decreases s.len() - i,
{
    if i < 0 || i >= s.len() {
    } else {
        lemma_count_concat(
            spec_pair_events_from(s[i], s, i + 1),
            spec_events_from(s, i + 1),
            ev,
        );
        lemma_pair_events_zero(s[i], s, i + 1, ev);
        lemma_events_from_zero(s, i + 1, ev);
    }
}

/// The pass over `s[i..]` emits the event of snapshot rows `a` and `b`
/// exactly once if they overlap, never otherwise — in either orientation.
proof fn lemma_events_from_count(s: Seq<Collider>, i: int, a: int, b: int, ev: CollisionEvent)
    requires
        spec_distinct_entities(s),
        0 <= i <= a < b < s.len(),
        ev == CollisionEvent(s[a].entity, s[b].entity) || ev == CollisionEvent(
            s[b].entity,
            s[a].entity,
        ),
    ensures
        spec_count(spec_events_from(s, i), ev) == (if spec_overlaps(
            s[a].position,
            s[a].extent,
            s[b].position,
            s[b].extent,
        ) {
            1int
        } else {
            0int
        }),
    decreases s.len() - i,
{
    lemma_count_concat(spec_pair_events_from(s[i], s, i + 1), spec_events_from(s, i + 1), ev);
    if i == a {
        assert forall|k: int|
            a + 1 <= k < s.len() implies s[a].entity != (#[trigger] s[k]).entity by {}
        lemma_pair_events_count(s[a], s, a + 1, b, ev);
        if ev == CollisionEvent(s[a].entity, s[b].entity) {
            assert(forall|k: int| a + 1 <= k < s.len() ==> (#[trigger] s[k]).entity != ev.0);
        } else {
            assert(forall|k: int| a + 1 <= k < s.len() ==> (#[trigger] s[k]).entity != ev.1);
        }
        lemma_events_from_zero(s, a + 1, ev);
    } else {
        assert forall|k: int|
            i + 1 <= k < s.len() implies (ev.0 != s[i].entity || ev.1 != (#[trigger] s[k]).entity)
            && (ev.0 != s[k].entity || ev.1 != s[i].entity) by {
            assert(s[i].entity != s[a].entity);
            assert(s[i].entity != s[b].entity);
        }
        lemma_pair_events_zero(s[i], s, i + 1, ev);
        lemma_events_from_count(s, i + 1, a, b, ev);
    }
}

/// Collision symmetry: over a snapshot of pairwise distinct entities, one
/// detection pass emits, for any two rows whose boxes overlap, exactly one
/// (A, B) event and exactly one (B, A) event; a non-overlapping pair
/// contributes no event in either orientation.
pub proof fn lemma_detection_symmetry(s: Seq<Collider>, a: int, b: int)
    requires
        spec_distinct_entities(s),
        0 <= a < b < s.len(),
    ensures
        spec_count(spec_detect(s), CollisionEvent(s[a].entity, s[b].entity)) == (if spec_overlaps(
            s[a].position,
            s[a].extent,
            s[b].position,
            s[b].extent,
        ) {
            1int
        } else {
            0int
        }),
        spec_count(spec_detect(s), CollisionEvent(s[b].entity, s[a].entity)) == (if spec_overlaps(
            s[a].position,
            s[a].extent,
            s[b].position,
            s[b].extent,
        ) {
            1int
        } else {
            0int
        }),
{
    lemma_events_from_count(s, 0, a, b, CollisionEvent(s[a].entity, s[b].entity));
    lemma_events_from_count(s, 0, a, b, CollisionEvent(s[b].entity, s[a].entity));
}

/// The snapshot rows below `n` carry slot numbers below `n`, one row per
/// slot, so their entities are pairwise distinct.
proof fn lemma_colliders_upto_distinct(v: StoreView, n: int)
    requires
        n <= usize::MAX,
    ensures
        spec_distinct_entities(spec_colliders_upto(v, n)),
        forall|k: int|
            0 <= k < spec_colliders_upto(v, n).len() ==> (#[trigger] spec_colliders_upto(
                v,
                n,
            )[k]).entity.slot < n,
    decreases n,
{
    if n <= 0 {
    } else {
        lemma_colliders_upto_distinct(v, n - 1);
        let prev = spec_colliders_upto(v, n - 1);
        let cur = spec_colliders_upto(v, n);
        if spec_qualifies(v, n - 1) {
            assert(cur =~= prev + seq![spec_collider_at(v, n - 1)]);
            assert(spec_collider_at(v, n - 1).entity.slot == n - 1);
        } else {
            assert(cur =~= prev + Seq::<Collider>::empty());
            assert(cur =~= prev);
        }
    }
}

/// The detection snapshot of a store never lists one entity twice.
pub proof fn lemma_colliders_distinct(v: StoreView)
    requires
        v.slots.len() <= usize::MAX,
    ensures
        spec_distinct_entities(spec_colliders(v)),
{
    lemma_colliders_upto_distinct(v, v.slots.len() as int);
}

} // verus!

verus! {

/// Collision symmetry at the store: one Detection pass over a store's
/// snapshot emits, for any two snapshot rows whose boxes overlap, exactly
/// one event in each orientation, and none for a non-overlapping pair.
pub proof fn lemma_store_detection_symmetry(v: StoreView, a: int, b: int)
    requires
        v.slots.len() <= usize::MAX,
        0 <= a < b < spec_colliders(v).len(),
    ensures
        ({
            let s = spec_colliders(v);
            let once = if spec_overlaps(s[a].position, s[a].extent, s[b].position, s[b].extent) {
                1int
            } else {
                0int
            };
            &&& spec_count(spec_detect(s), CollisionEvent(s[a].entity, s[b].entity)) == once
            &&& spec_count(spec_detect(s), CollisionEvent(s[b].entity, s[a].entity)) == once
        }),
{
    lemma_colliders_distinct(v);
    lemma_detection_symmetry(spec_colliders(v), a, b);
}

} // verus!
