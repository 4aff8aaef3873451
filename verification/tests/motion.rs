use shooter_core::components::{ComponentSet, Extent, InputState, Laser, Player, Pos, Weapon};
use shooter_core::store::{CommandBuffer, Store};
use shooter_core::systems::{environment_move, laser_move, player_control, weapons};
use shooter_core::timer::Timer;

#[test]
fn laser_climbs_by_speed_times_delta() {
    let mut store = Store::new();
    let mut s = ComponentSet::empty();
    s.position = Some(Pos { x: 3, y: 10 });
    s.laser = Some(Laser { speed: 1000 });
    let e = store.spawn(s);
    laser_move(&mut store, 2);
    let c = store.get_components(e).unwrap();
    assert_eq!(c.position, Some(Pos { x: 3, y: 2010 }));
}

#[test]
fn laser_position_saturates_at_the_range_end() {
    let mut store = Store::new();
    let mut s = ComponentSet::empty();
    s.position = Some(Pos { x: 0, y: i64::MAX - 5 });
    s.laser = Some(Laser { speed: 1000 });
    let e = store.spawn(s);
    laser_move(&mut store, 1);
    let c = store.get_components(e).unwrap();
    assert_eq!(c.position, Some(Pos { x: 0, y: i64::MAX }));
}

#[test]
fn environment_scrolls_down() {
    let mut store = Store::new();
    let mut s = ComponentSet::empty();
    s.position = Some(Pos { x: 7, y: 0 });
    s.flags.environment = true;
    let e = store.spawn(s);
    environment_move(&mut store, 3);
    let c = store.get_components(e).unwrap();
    assert_eq!(c.position, Some(Pos { x: 7, y: -768 }));
}

fn armed_player(cooldown: u64) -> ComponentSet {
    let mut s = ComponentSet::empty();
    s.position = Some(Pos { x: 0, y: 0 });
    s.player = Some(Player { speed: 100 });
    s.weapon = Some(Weapon {
        fired: false,
        offset: Pos { x: 0, y: 60 },
        cooldown: Timer::new(cooldown, false),
        material_id: 0,
    });
    s
}

#[test]
fn fire_request_latches_until_the_weapon_fires() {
    let mut store = Store::new();
    let e = store.spawn(armed_player(100));
    let fire = InputState { left: false, right: false, fire: true };
    let idle = InputState { left: false, right: false, fire: false };
    player_control(&mut store, fire, 1);
    assert!(store.get_components(e).unwrap().weapon.unwrap().fired);
    player_control(&mut store, idle, 1);
    assert!(
        store.get_components(e).unwrap().weapon.unwrap().fired,
        "a pending request survives idle input"
    );
}

#[test]
fn cooldown_blocks_fire_until_it_finishes() {
    let mut store = Store::new();
    let e = store.spawn(armed_player(100));
    let fire = InputState { left: false, right: false, fire: true };
    player_control(&mut store, fire, 1);
    let materials = vec![5];
    let mut buffer = CommandBuffer::new();
    weapons(&mut store, &mut buffer, &materials, Extent { w: 2, h: 8 }, 10);
    assert_eq!(buffer.queue.len(), 0, "cooldown still running");
    weapons(&mut store, &mut buffer, &materials, Extent { w: 2, h: 8 }, 90);
    assert_eq!(buffer.queue.len(), 1, "cooldown finished, request pending");
    let w = store.get_components(e).unwrap().weapon.unwrap();
    assert!(!w.fired, "the request is consumed");
    assert_eq!(w.cooldown.elapsed, 0, "the cooldown is reset");
    weapons(&mut store, &mut buffer, &materials, Extent { w: 2, h: 8 }, 10);
    assert_eq!(buffer.queue.len(), 1, "no request, no projectile");
}
