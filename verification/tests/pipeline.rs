use shooter_core::collision::{collision_detection, CollisionEvent};
use shooter_core::components::{
    BoundingBox, CollisionDamage, ComponentSet, DeathBehavior, Extent, Health, Pos,
};
use shooter_core::events::{EventReader, Events};
use shooter_core::resolver::{bounding_box, despawn_dead, handle_collisions};
use shooter_core::store::{apply_commands, CommandBuffer, Store};

fn positioned(x: i64, y: i64, w: u32, h: u32) -> ComponentSet {
    let mut s = ComponentSet::empty();
    s.position = Some(Pos { x, y });
    s.extent = Some(Extent { w, h });
    s
}

fn count(events: &Events<CollisionEvent>, ev: CollisionEvent) -> usize {
    let mut n = 0;
    for e in &events.log {
        if *e == ev {
            n += 1;
        }
    }
    n
}

#[test]
fn overlapping_pair_sends_both_orderings_once() {
    let mut store = Store::new();
    let a = store.spawn(positioned(0, 0, 10, 10));
    let b = store.spawn(positioned(5, 0, 10, 10));
    let far = store.spawn(positioned(1000, 1000, 10, 10));
    let mut events = Events::new();
    collision_detection(&store, &mut events);
    assert_eq!(events.log.len(), 2);
    assert_eq!(count(&events, CollisionEvent(a, b)), 1);
    assert_eq!(count(&events, CollisionEvent(b, a)), 1);
    assert_eq!(count(&events, CollisionEvent(a, far)), 0);
    assert_eq!(count(&events, CollisionEvent(far, a)), 0);
}

#[test]
fn touching_boxes_do_not_overlap() {
    // |dx| == (w1+w2)/2 exactly: strict inequality, no event
    let mut store = Store::new();
    store.spawn(positioned(0, 0, 10, 10));
    store.spawn(positioned(10, 0, 10, 10));
    let mut events = Events::new();
    collision_detection(&store, &mut events);
    assert_eq!(events.log.len(), 0);
}

#[test]
fn entity_without_extent_is_not_detected() {
    let mut store = Store::new();
    store.spawn(positioned(0, 0, 10, 10));
    let mut s = ComponentSet::empty();
    s.position = Some(Pos { x: 0, y: 0 });
    store.spawn(s);
    let mut events = Events::new();
    collision_detection(&store, &mut events);
    assert_eq!(events.log.len(), 0);
}

#[test]
fn damage_accumulates_across_events() {
    let mut store = Store::new();
    let mut dealer1 = ComponentSet::empty();
    dealer1.damage = Some(CollisionDamage(1));
    let d1 = store.spawn(dealer1);
    let mut dealer2 = ComponentSet::empty();
    dealer2.damage = Some(CollisionDamage(2));
    let d2 = store.spawn(dealer2);
    let mut receiver = ComponentSet::empty();
    receiver.health = Some(Health(10));
    let r = store.spawn(receiver);

    let mut events = Events::new();
    events.send(CollisionEvent(d1, r));
    events.send(CollisionEvent(d2, r));
    let mut reader = EventReader::new();
    handle_collisions(&mut store, &events, &mut reader);
    assert_eq!(store.get_components(r).unwrap().health, Some(Health(7)));
    assert_eq!(reader.cursor, 2);
}

#[test]
fn missing_components_skip_the_event() {
    let mut store = Store::new();
    let mut dealer = ComponentSet::empty();
    dealer.damage = Some(CollisionDamage(3));
    let d = store.spawn(dealer);
    let mut no_damage = ComponentSet::empty();
    no_damage.health = Some(Health(5));
    let n = store.spawn(no_damage.clone());
    let r = store.spawn(no_damage);

    let mut events = Events::new();
    // dealer without CollisionDamage: skipped
    events.send(CollisionEvent(n, r));
    // receiver without Health: skipped
    events.send(CollisionEvent(d, d));
    let mut reader = EventReader::new();
    handle_collisions(&mut store, &events, &mut reader);
    assert_eq!(store.get_components(r).unwrap().health, Some(Health(5)));
    assert_eq!(store.get_components(n).unwrap().health, Some(Health(5)));
}

#[test]
fn stale_event_reference_is_skipped() {
    let mut store = Store::new();
    let mut dealer = ComponentSet::empty();
    dealer.damage = Some(CollisionDamage(3));
    let d = store.spawn(dealer);
    let mut receiver = ComponentSet::empty();
    receiver.health = Some(Health(5));
    let r = store.spawn(receiver);
    let mut events = Events::new();
    events.send(CollisionEvent(d, r));
    store.despawn(r);
    let mut reader = EventReader::new();
    handle_collisions(&mut store, &events, &mut reader);
    // the receiver died before the drain: silently ignored
    assert!(store.get_components(r).is_none());
}

#[test]
fn death_needs_strictly_negative_health() {
    let mut store = Store::new();
    let mut at_zero = ComponentSet::empty();
    at_zero.health = Some(Health(0));
    at_zero.death = Some(DeathBehavior::Despawn);
    let z = store.spawn(at_zero);
    let mut below = ComponentSet::empty();
    below.health = Some(Health(-1));
    below.death = Some(DeathBehavior::Despawn);
    let b = store.spawn(below);
    let mut persists = ComponentSet::empty();
    persists.health = Some(Health(-7));
    persists.death = Some(DeathBehavior::Persist);
    let p = store.spawn(persists);

    let mut buffer = CommandBuffer::new();
    despawn_dead(&store, &mut buffer);
    apply_commands(&mut store, &mut buffer);
    assert!(store.is_live(z), "health 0 is not death");
    assert!(!store.is_live(b), "health -1 crosses the threshold");
    assert!(store.is_live(p), "Persist keeps the entity for inspection");
}

#[test]
fn bounded_entities_outside_the_world_are_despawned() {
    let bounds = BoundingBox { width: 100, height: 100 };
    let mut store = Store::new();
    let mut inside = positioned(50, 0, 1, 1);
    inside.flags.bounded = true;
    let i = store.spawn(inside);
    let mut outside = positioned(51, 0, 1, 1);
    outside.flags.bounded = true;
    let o = store.spawn(outside);
    // out of bounds but not Bounded: stays
    let u = store.spawn(positioned(600, 600, 1, 1));

    let mut buffer = CommandBuffer::new();
    bounding_box(&store, bounds, &mut buffer);
    apply_commands(&mut store, &mut buffer);
    assert!(store.is_live(i), "on the edge is still inside");
    assert!(!store.is_live(o));
    assert!(store.is_live(u));
}

#[test]
fn independent_cursors_drain_at_their_own_pace() {
    let mut events: Events<CollisionEvent> = Events::new();
    let mut store = Store::new();
    let a = store.spawn(ComponentSet::empty());
    let b = store.spawn(ComponentSet::empty());
    events.send(CollisionEvent(a, b));
    events.send(CollisionEvent(b, a));
    let mut r1 = EventReader::new();
    let mut r2 = EventReader::new();
    let first = r1.drain(&events);
    assert_eq!(first.len(), 2);
    assert_eq!(first[0], CollisionEvent(a, b));
    assert_eq!(first[1], CollisionEvent(b, a));
    events.send(CollisionEvent(a, a));
    let second = r1.drain(&events);
    assert_eq!(second.len(), 1);
    assert_eq!(second[0], CollisionEvent(a, a));
    // the other reader still sees everything from the start
    let all = r2.drain(&events);
    assert_eq!(all.len(), 3);
    // a re-drain with nothing new yields nothing
    assert_eq!(r1.drain(&events).len(), 0);
}
