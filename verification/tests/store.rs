use shooter_core::components::{ComponentSet, Health};
use shooter_core::store::{apply_commands, CommandBuffer, Store};

fn set_with_health(h: i64) -> ComponentSet {
    let mut s = ComponentSet::empty();
    s.health = Some(Health(h));
    s
}

#[test]
fn spawn_then_lookup() {
    let mut store = Store::new();
    let e = store.spawn(set_with_health(5));
    let c = store.get_components(e).unwrap();
    assert_eq!(c.health, Some(Health(5)));
    assert!(store.is_live(e));
}

#[test]
fn despawned_reference_resolves_absent() {
    let mut store = Store::new();
    let e = store.spawn(set_with_health(5));
    store.despawn(e);
    assert!(!store.is_live(e));
    assert!(store.get_components(e).is_none());
}

#[test]
fn slot_reuse_yields_distinct_identifier() {
    let mut store = Store::new();
    let e = store.spawn(set_with_health(1));
    store.despawn(e);
    let e2 = store.spawn(set_with_health(2));
    // the slot is reused, the generation is not
    assert_eq!(e2.slot, e.slot);
    assert_ne!(e2, e);
    // the stale reference still resolves absent; the new one resolves
    assert!(store.get_components(e).is_none());
    assert_eq!(store.get_components(e2).unwrap().health, Some(Health(2)));
}

#[test]
fn despawn_of_dead_or_stale_is_noop() {
    let mut store = Store::new();
    let e = store.spawn(set_with_health(1));
    store.despawn(e);
    let e2 = store.spawn(set_with_health(2));
    // stale identifier: silently ignored, e2 untouched
    store.despawn(e);
    assert!(store.is_live(e2));
    // double despawn: second one is a no-op
    store.despawn(e2);
    store.despawn(e2);
    assert!(!store.is_live(e2));
}

#[test]
fn commands_apply_in_order_at_the_boundary() {
    let mut store = Store::new();
    let e = store.spawn(set_with_health(1));
    let mut buffer = CommandBuffer::new();
    buffer.queue_despawn(e);
    buffer.queue_spawn(set_with_health(9));
    // nothing happens until the boundary
    assert!(store.is_live(e));
    apply_commands(&mut store, &mut buffer);
    assert!(!store.is_live(e));
    let live = store.live_entities();
    assert_eq!(live.len(), 1);
    let c = store.get_components(live[0]).unwrap();
    assert_eq!(c.health, Some(Health(9)));
}

#[test]
fn live_entities_lists_each_live_slot() {
    let mut store = Store::new();
    let a = store.spawn(set_with_health(1));
    let b = store.spawn(set_with_health(2));
    let c = store.spawn(set_with_health(3));
    store.despawn(b);
    let live = store.live_entities();
    assert_eq!(live.len(), 2);
    assert!(live.contains(&a));
    assert!(live.contains(&c));
}
