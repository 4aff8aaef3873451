//! Damage application and entity lifecycle.
//!
//! Handle-Events drains unread collision events and applies each dealer's
//! damage to its receiver's health; Cleanup buffers despawns for entities
//! whose health has crossed the death threshold (strictly below zero) and
//! for `Bounded` entities that have left the world extent.

use vstd::prelude::*;
use crate::clamp_i64;
use crate::clamp_wide;
use crate::collision::CollisionEvent;
use crate::components::{BoundingBox, ComponentSet, DeathBehavior, Health, Pos};
use crate::events::{EventReader, Events};
use crate::store::{Command, CommandBuffer, Entity, Slot, Store, StoreView};

verus! {

/// Does one event apply damage: the dealer must hold `CollisionDamage`,
/// the receiver `Health`; a dead or stale side, or a missing component on
/// either side, skips the event silently.
pub open spec fn spec_event_applies(v: StoreView, ev: CollisionEvent) -> bool {
    &&& v.live(ev.0)
    &&& v.slots[ev.0.slot as int].set.damage is Some
    &&& v.live(ev.1)
    &&& v.slots[ev.1.slot as int].set.health is Some
}

/// The store after one collision event: the receiver's health drops by the
/// dealer's damage, saturating at the ends of the `i64` range; everything
/// else is untouched.
pub open spec fn spec_damaged_one(v: StoreView, ev: CollisionEvent) -> StoreView {
    if spec_event_applies(v, ev) {
        let r = ev.1.slot as int;
        let sl = v.slots[r];
        let h = sl.set.health.unwrap().0;
        let d = v.slots[ev.0.slot as int].set.damage.unwrap().0;
        StoreView {
            slots: v.slots.update(
                r,
                Slot {
                    generation: sl.generation,
                    alive: sl.alive,
                    set: ComponentSet { health: Some(Health(clamp_i64(h - d) as i64)), ..sl.set },
                },
            ),
            free: v.free,
        }
    } else {
        v
    }
}

/// The store after the events `evs[k..]`, applied in order.
pub open spec fn spec_damaged_from(v: StoreView, evs: Seq<CollisionEvent>, k: int) -> StoreView
    decreases evs.len() - k,
{
    if k < 0 || k >= evs.len() {
        v
    } else {
        spec_damaged_from(spec_damaged_one(v, evs[k]), evs, k + 1)
    }
}

/// The Handle-Events stage: drain every unread collision event through the
/// shared cursor and apply each in send order. Damage from several events
/// against one receiver in one drain accumulates.
pub fn handle_collisions(
    store: &mut Store,
    events: &Events<CollisionEvent>,
    reader: &mut EventReader,
)
    requires
        old(store)@.wf(),
        old(reader).cursor <= events@.len(),
    ensures
        final(store)@ == spec_damaged_from(old(store)@, events@, old(reader).cursor as int),
        final(store)@.wf(),
        final(reader).cursor == events@.len(),
{
    let mut idx: usize = reader.cursor;
    while idx < events.log.len()
        invariant
            reader.cursor <= idx <= events@.len(),
            reader.cursor == old(reader).cursor,
            store@.wf(),
            spec_damaged_from(store@, events@, idx as int) == spec_damaged_from(
                old(store)@,
                events@,
                old(reader).cursor as int,
            ),
        decreases events@.len() - idx,
    {
        let ghost pre = store@;
        let ev = events.log[idx];
        let dealer = store.get_components(ev.0);
        let receiver = store.get_components(ev.1);
        if let Some(dc) = dealer {
            if let Some(dmg) = dc.damage {
                if let Some(rc) = receiver {
                    if let Some(h) = rc.health {
                        let nh = clamp_wide(h.0 as i128 - dmg.0 as i128);
                        let s = ev.1.slot;
                        let mut sl = store.slots[s];
                        sl.set.health = Some(Health(nh));
                        store.slots[s] = sl;
                    }
                }
            }
        }
        proof {
            if spec_event_applies(pre, ev) {
                assert(store@.slots =~= spec_damaged_one(pre, ev).slots);
                assert(store@ =~= spec_damaged_one(pre, ev));
                assert forall|k: int|
                    0 <= k < store@.free.len() implies (store@.free[k] as int) < store@.slots.len()
                    && !store@.slots[store@.free[k] as int].alive by {
                    assert((pre.free[k] as int) < pre.slots.len()
                        && !pre.slots[pre.free[k] as int].alive);
                }
                assert(store@.wf());
            } else {
                assert(spec_damaged_one(pre, ev) == pre);
            }
            assert(spec_damaged_from(pre, events@, idx as int) == spec_damaged_from(
                spec_damaged_one(pre, events@[idx as int]),
                events@,
                idx as int + 1,
            ));
        }
        idx = idx + 1;
    }
    reader.cursor = events.log.len();
}

/// Two damage events against one receiver in one drain accumulate: with
/// dealer damages `d1` and `d2` and receiver health `h`, the receiver ends
/// the drain at `h - d1 - d2` (when that stays in range).
pub proof fn lemma_damage_accumulates(
    v: StoreView,
    dealer1: Entity,
    dealer2: Entity,
    receiver: Entity,
    d1: i64,
    d2: i64,
    h: i64,
)
    requires
        v.live(dealer1),
        v.live(dealer2),
        v.live(receiver),
        v.slots[dealer1.slot as int].set.damage == Some(crate::components::CollisionDamage(d1)),
        v.slots[dealer2.slot as int].set.damage == Some(crate::components::CollisionDamage(d2)),
        v.slots[receiver.slot as int].set.health == Some(Health(h)),
        i64::MIN <= h - d1 <= i64::MAX,
        i64::MIN <= h - d1 - d2 <= i64::MAX,
    ensures
        ({
            let after = spec_damaged_from(
                v,
                seq![CollisionEvent(dealer1, receiver), CollisionEvent(dealer2, receiver)],
                0,
            );
            after.slots[receiver.slot as int].set.health == Some(Health((h - d1 - d2) as i64))
        }),
{
    let evs = seq![CollisionEvent(dealer1, receiver), CollisionEvent(dealer2, receiver)];
    let v1 = spec_damaged_one(v, evs[0]);
    assert(spec_event_applies(v, evs[0]));
    assert(v1.slots[receiver.slot as int].set.health == Some(Health((h - d1) as i64)));
    assert(v1.live(dealer2));
    assert(v1.live(receiver));
    assert(v1.slots[dealer2.slot as int].set.damage == Some(
        crate::components::CollisionDamage(d2),
    ));
    assert(spec_event_applies(v1, evs[1]));
    let v2 = spec_damaged_one(v1, evs[1]);
    assert(v2.slots[receiver.slot as int].set.health == Some(Health((h - d1 - d2) as i64)));
    assert(spec_damaged_from(v, evs, 0) == spec_damaged_from(v1, evs, 1));
    assert(spec_damaged_from(v1, evs, 1) == spec_damaged_from(v2, evs, 2));
    assert(spec_damaged_from(v2, evs, 2) == v2);
}

/// Is `e` due for removal by Cleanup: live, with health strictly below
/// zero, and declaring `Despawn` as its death behavior. An entity at
/// exactly zero health is not due.
pub open spec fn spec_doomed(v: StoreView, e: Entity) -> bool {
    &&& v.live(e)
    &&& v.slots[e.slot as int].set.health is Some
    &&& v.slots[e.slot as int].set.health.unwrap().0 < 0
    &&& v.slots[e.slot as int].set.death == Some(DeathBehavior::Despawn)
}

/// Slot-indexed form of [`spec_doomed`].
pub open spec fn spec_slot_doomed(v: StoreView, i: int) -> bool {
    &&& v.slots[i].alive
    &&& v.slots[i].set.health is Some
    &&& v.slots[i].set.health.unwrap().0 < 0
    &&& v.slots[i].set.death == Some(DeathBehavior::Despawn)
}

/// The despawn commands Cleanup queues for slots below `n`, in slot order.
pub open spec fn spec_doom_upto(v: StoreView, n: int) -> Seq<Command>
    decreases n,
{
    if n <= 0 {
        Seq::empty()
    } else {
        spec_doom_upto(v, n - 1) + (if spec_slot_doomed(v, n - 1) {
            seq![
                Command::Despawn(
                    Entity { slot: (n - 1) as usize, generation: v.slots[n - 1].generation },
                ),
            ]
        } else {
            Seq::empty()
        })
    }
}

/// All despawn commands one Cleanup pass queues for dead entities.
pub open spec fn spec_doom_list(v: StoreView) -> Seq<Command> {
    spec_doom_upto(v, v.slots.len() as int)
}

/// The death half of the Cleanup stage: buffer a despawn for every entity
/// whose health is strictly below zero and whose death behavior is
/// `Despawn`. Health exactly zero is not death; behavior `Persist` leaves
/// the entity in place, negative health and all.
pub fn despawn_dead(store: &Store, commands: &mut CommandBuffer)
    ensures
        final(commands)@ == old(commands)@ + spec_doom_list(store@),
{
    let mut i: usize = 0;
    while i < store.slots.len()
        invariant
            i <= store.slots@.len(),
            commands@ == old(commands)@ + spec_doom_upto(store@, i as int),
        decreases store.slots@.len() - i,
    {
        let sl = store.slots[i];
        let ghost prev = commands@;
        if sl.alive {
            if let Some(h) = sl.set.health {
                if let Some(b) = sl.set.death {
                    if h.0 < 0 && matches!(b, DeathBehavior::Despawn) {
                        commands.queue_despawn(Entity { slot: i, generation: sl.generation });
                    }
                }
            }
        }
        proof {
            if spec_slot_doomed(store@, i as int) {
                let ent = Entity { slot: i, generation: store@.slots[i as int].generation };
                assert(spec_doom_upto(store@, i as int + 1) == spec_doom_upto(store@, i as int)
                    + seq![Command::Despawn(ent)]);
                assert(commands@ =~= old(commands)@ + spec_doom_upto(store@, i as int + 1));
            } else {
                assert(spec_doom_upto(store@, i as int + 1) == spec_doom_upto(store@, i as int)
                    + Seq::<Command>::empty());
                assert(commands@ =~= old(commands)@ + spec_doom_upto(store@, i as int + 1));
            }
        }
        i = i + 1;
    }
}

/// The Cleanup pass over slots below `n` queues a despawn for `e` exactly
/// when `e` is a doomed entity in one of those slots.
pub proof fn lemma_doom_upto_contains(v: StoreView, n: int, e: Entity)
    requires
        0 <= n <= v.slots.len(),
        v.slots.len() <= usize::MAX,
    ensures
        spec_doom_upto(v, n).contains(Command::Despawn(e)) <==> spec_doomed(v, e) && (
        e.slot as int) < n,
    decreases n,
{
    if n == 0 {
    } else {
        lemma_doom_upto_contains(v, n - 1, e);
        let prev = spec_doom_upto(v, n - 1);
        let cur = spec_doom_upto(v, n);
        if spec_slot_doomed(v, n - 1) {
            let ent = Entity { slot: (n - 1) as usize, generation: v.slots[n - 1].generation };
            assert(cur =~= prev.push(Command::Despawn(ent)));
            assert(spec_doomed(v, ent));
            if cur.contains(Command::Despawn(e)) {
                let k = choose|k: int| 0 <= k < cur.len() && cur[k] == Command::Despawn(e);
                if k < prev.len() {
                    assert(prev[k] == Command::Despawn(e));
                    assert(prev.contains(Command::Despawn(e)));
                } else {
                    assert(e == ent);
                }
            }
            if spec_doomed(v, e) && (e.slot as int) < n {
                if (e.slot as int) == n - 1 {
                    assert(e == ent);
                    assert(cur[cur.len() - 1] == Command::Despawn(e));
                    assert(cur.contains(Command::Despawn(e)));
                } else {
                    assert(prev.contains(Command::Despawn(e)));
                    let k = choose|k: int| 0 <= k < prev.len() && prev[k] == Command::Despawn(e);
                    assert(cur[k] == Command::Despawn(e));
                    assert(cur.contains(Command::Despawn(e)));
                }
            }
        } else {
            assert(cur =~= prev);
            if spec_doomed(v, e) && (e.slot as int) == n - 1 {
                assert(spec_slot_doomed(v, n - 1));
            }
        }
    }
}

/// One Cleanup pass queues a despawn for exactly the doomed entities.
pub proof fn lemma_doom_list_contains(v: StoreView, e: Entity)
    requires
        v.slots.len() <= usize::MAX,
    ensures
        spec_doom_list(v).contains(Command::Despawn(e)) <==> spec_doomed(v, e),
{
    lemma_doom_upto_contains(v, v.slots.len() as int, e);
}

/// Has this position left the world extent: strictly beyond half the
/// configured width or height from the origin on either axis. Stated
/// without division: |x| > w/2 holds exactly when 2|x| > w.
pub open spec fn spec_out_of_bounds(p: Pos, b: BoundingBox) -> bool {
    ||| 2 * p.x < -(b.width as int)
    ||| 2 * p.x > b.width
    ||| 2 * p.y < -(b.height as int)
    ||| 2 * p.y > b.height
}

/// Is `e` due for removal by the bounds check: live, marked `Bounded`,
/// positioned, and out of the world extent — independent of health.
pub open spec fn spec_stray(v: StoreView, b: BoundingBox, e: Entity) -> bool {
    &&& v.live(e)
    &&& v.slots[e.slot as int].set.flags.bounded
    &&& v.slots[e.slot as int].set.position is Some
    &&& spec_out_of_bounds(v.slots[e.slot as int].set.position->0, b)
}

/// Slot-indexed form of [`spec_stray`].
pub open spec fn spec_slot_stray(v: StoreView, b: BoundingBox, i: int) -> bool {
    &&& v.slots[i].alive
    &&& v.slots[i].set.flags.bounded
    &&& v.slots[i].set.position is Some
    &&& spec_out_of_bounds(v.slots[i].set.position->0, b)
}

/// The despawn commands the bounds check queues for slots below `n`.
pub open spec fn spec_stray_upto(v: StoreView, b: BoundingBox, n: int) -> Seq<Command>
    decreases n,
{
    if n <= 0 {
        Seq::empty()
    } else {
        spec_stray_upto(v, b, n - 1) + (if spec_slot_stray(v, b, n - 1) {
            seq![
                Command::Despawn(
                    Entity { slot: (n - 1) as usize, generation: v.slots[n - 1].generation },
                ),
            ]
        } else {
            Seq::empty()
        })
    }
}

/// All despawn commands one bounds-check pass queues.
pub open spec fn spec_stray_list(v: StoreView, b: BoundingBox) -> Seq<Command> {
    spec_stray_upto(v, b, v.slots.len() as int)
}

/// The bounds half of the Cleanup stage: buffer a despawn for every
/// `Bounded` entity whose position has left the world extent.
pub fn bounding_box(store: &Store, bounds: BoundingBox, commands: &mut CommandBuffer)
    ensures
        final(commands)@ == old(commands)@ + spec_stray_list(store@, bounds),
{
    let mut i: usize = 0;
    while i < store.slots.len()
        invariant
            i <= store.slots@.len(),
            commands@ == old(commands)@ + spec_stray_upto(store@, bounds, i as int),
        decreases store.slots@.len() - i,
    {
        let sl = store.slots[i];
        if sl.alive && sl.set.flags.bounded {
            if let Some(p) = sl.set.position {
                let oob = 2 * (p.x as i128) < -(bounds.width as i128) || 2 * (p.x as i128)
                    > bounds.width as i128 || 2 * (p.y as i128) < -(bounds.height as i128) || 2 * (
                p.y as i128) > bounds.height as i128;
                if oob {
                    commands.queue_despawn(Entity { slot: i, generation: sl.generation });
                }
            }
        }
        proof {
            if spec_slot_stray(store@, bounds, i as int) {
                let ent = Entity { slot: i, generation: store@.slots[i as int].generation };
                assert(spec_stray_upto(store@, bounds, i as int + 1) == spec_stray_upto(
                    store@,
                    bounds,
                    i as int,
                ) + seq![Command::Despawn(ent)]);
                assert(commands@ =~= old(commands)@ + spec_stray_upto(store@, bounds, i as int + 1));
            } else {
                assert(spec_stray_upto(store@, bounds, i as int + 1) == spec_stray_upto(
                    store@,
                    bounds,
                    i as int,
                ) + Seq::<Command>::empty());
                assert(commands@ =~= old(commands)@ + spec_stray_upto(store@, bounds, i as int + 1));
            }
        }
        i = i + 1;
    }
}

/// The bounds check over slots below `n` queues a despawn for `e` exactly
/// when `e` is a stray entity in one of those slots.
pub proof fn lemma_stray_upto_contains(v: StoreView, b: BoundingBox, n: int, e: Entity)
    requires
        0 <= n <= v.slots.len(),
        v.slots.len() <= usize::MAX,
    ensures
        spec_stray_upto(v, b, n).contains(Command::Despawn(e)) <==> spec_stray(v, b, e) && (
        e.slot as int) < n,
    decreases n,
{
    if n == 0 {
    } else {
        lemma_stray_upto_contains(v, b, n - 1, e);
        let prev = spec_stray_upto(v, b, n - 1);
        let cur = spec_stray_upto(v, b, n);
        if spec_slot_stray(v, b, n - 1) {
            let ent = Entity { slot: (n - 1) as usize, generation: v.slots[n - 1].generation };
            assert(cur =~= prev.push(Command::Despawn(ent)));
            assert(spec_stray(v, b, ent));
            if cur.contains(Command::Despawn(e)) {
                let k = choose|k: int| 0 <= k < cur.len() && cur[k] == Command::Despawn(e);
                if k < prev.len() {
                    assert(prev[k] == Command::Despawn(e));
                    assert(prev.contains(Command::Despawn(e)));
                } else {
                    assert(e == ent);
                }
            }
            if spec_stray(v, b, e) && (e.slot as int) < n {
                if (e.slot as int) == n - 1 {
                    assert(e == ent);
                    assert(cur[cur.len() - 1] == Command::Despawn(e));
                    assert(cur.contains(Command::Despawn(e)));
                } else {
                    assert(prev.contains(Command::Despawn(e)));
                    let k = choose|k: int| 0 <= k < prev.len() && prev[k] == Command::Despawn(e);
                    assert(cur[k] == Command::Despawn(e));
                    assert(cur.contains(Command::Despawn(e)));
                }
            }
        } else {
            assert(cur =~= prev);
            if spec_stray(v, b, e) && (e.slot as int) == n - 1 {
                assert(spec_slot_stray(v, b, n - 1));
            }
        }
    }
}

/// One bounds-check pass queues a despawn for exactly the stray entities.
pub proof fn lemma_stray_list_contains(v: StoreView, b: BoundingBox, e: Entity)
    requires
        v.slots.len() <= usize::MAX,
    ensures
        spec_stray_list(v, b).contains(Command::Despawn(e)) <==> spec_stray(v, b, e),
{
    lemma_stray_upto_contains(v, b, v.slots.len() as int, e);
}

/// The death threshold is strict: with `Despawn` behavior, health exactly
/// zero does not doom an entity; any health strictly below zero does.
pub proof fn lemma_death_threshold(v: StoreView, e: Entity, h: i64)
    requires
        v.live(e),
        v.slots[e.slot as int].set.health == Some(Health(h)),
        v.slots[e.slot as int].set.death == Some(DeathBehavior::Despawn),
    ensures
        spec_doomed(v, e) <==> h < 0,
{
}

} // verus!


verus! {

/// The death threshold, seen through one whole Cleanup stage and its
/// boundary: among the in-bounds entities declaring `Despawn`, one whose
/// health is exactly zero survives with its record untouched, while one
/// whose health is strictly negative is despawned — whatever else the
/// stage removes.
pub proof fn lemma_cleanup_applies_threshold(v: StoreView, b: BoundingBox, e: Entity, h: i64)
    requires
        v.wf(),
        v.live(e),
        v.slots[e.slot as int].set.health == Some(Health(h)),
        v.slots[e.slot as int].set.death == Some(DeathBehavior::Despawn),
        !spec_stray(v, b, e),
        v.slots.len() <= usize::MAX,
    ensures
        h < 0 ==> !v.applied(spec_stray_list(v, b) + spec_doom_list(v)).live(e),
        h >= 0 ==> v.applied(spec_stray_list(v, b) + spec_doom_list(v)).live(e) && v.applied(
            spec_stray_list(v, b) + spec_doom_list(v),
        ).comps(e) == v.comps(e),
{
    let strays = spec_stray_list(v, b);
    let dooms = spec_doom_list(v);
    let cmds = strays + dooms;
    lemma_doom_list_contains(v, e);
    lemma_stray_list_contains(v, b, e);
    if h < 0 {
        assert(spec_doomed(v, e));
        assert(dooms.contains(Command::Despawn(e)));
        let k = choose|k: int| 0 <= k < dooms.len() && dooms[k] == Command::Despawn(e);
        assert(cmds[strays.len() + k] == Command::Despawn(e));
        assert(cmds.contains(Command::Despawn(e)));
        crate::store::lemma_applied_despawns(v, e, cmds);
    } else {
        assert(!spec_doomed(v, e));
        assert forall|k: int| 0 <= k < cmds.len() implies cmds[k] != Command::Despawn(e) by {
            if cmds[k] == Command::Despawn(e) {
                if k < strays.len() {
                    assert(strays[k] == Command::Despawn(e));
                    assert(strays.contains(Command::Despawn(e)));
                } else {
                    assert(dooms[k - strays.len()] == Command::Despawn(e));
                    assert(dooms.contains(Command::Despawn(e)));
                }
            }
        }
        crate::store::lemma_applied_preserves(v, e, cmds);
    }
}

} // verus!
