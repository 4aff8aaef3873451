use shooter_core::components::{
    BoundingBox, CollisionDamage, ComponentSet, DeathBehavior, Extent, Health, InputState, Laser,
    Pos,
};
use shooter_core::store::Entity;
use shooter_core::world::{Schedule, World, WorldConfig};

fn quiet_config() -> WorldConfig {
    // player parked far away, spawner effectively off, bounds huge
    WorldConfig {
        bounds: BoundingBox { width: 4_000_000_000, height: 4_000_000_000 },
        spawn_interval: 1_000_000,
        player_position: Pos { x: 500_000, y: 500_000 },
        player_speed: 400,
        player_extent: Extent { w: 10, h: 10 },
        player_material: None,
        weapon_offset: Pos { x: 0, y: 60 },
        weapon_cooldown: 400,
        weapon_material_id: 0,
        laser_extent: Extent { w: 2, h: 8 },
        enemy_extent: Extent { w: 10, h: 10 },
        materials: vec![11, 22, 33],
    }
}

fn idle() -> InputState {
    InputState { left: false, right: false, fire: false }
}

#[test]
fn new_world_holds_exactly_the_player() {
    let world = World::new(quiet_config());
    let live = world.store.live_entities();
    assert_eq!(live.len(), 1);
    let c = world.store.get_components(live[0]).unwrap();
    assert!(c.player.is_some());
    assert!(c.weapon.is_some());
    assert_eq!(c.health, Some(Health(1)));
    assert_eq!(c.damage, Some(CollisionDamage(1)));
    assert_eq!(c.death, Some(DeathBehavior::Despawn));
    assert_eq!(c.position, Some(Pos { x: 500_000, y: 500_000 }));
}

#[test]
fn full_scenario_two_ticks_to_despawn() {
    let mut world = World::new(quiet_config());
    let mut a = ComponentSet::empty();
    a.position = Some(Pos { x: 0, y: 0 });
    a.extent = Some(Extent { w: 10, h: 10 });
    a.damage = Some(CollisionDamage(1));
    let dealer = world.store.spawn(a);
    let mut b = ComponentSet::empty();
    b.position = Some(Pos { x: 5, y: 0 });
    b.extent = Some(Extent { w: 10, h: 10 });
    b.health = Some(Health(1));
    b.death = Some(DeathBehavior::Despawn);
    let receiver = world.store.spawn(b);

    let schedule = Schedule::standard();
    world.tick(&schedule, idle(), 1);

    // Detection emitted both orderings once
    let evs = &world.events.log;
    assert_eq!(evs.len(), 2);
    assert_eq!(evs[0].0, dealer);
    assert_eq!(evs[0].1, receiver);
    assert_eq!(evs[1].0, receiver);
    assert_eq!(evs[1].1, dealer);
    // Handle-Events took the receiver to zero; Cleanup left it alive
    let c = world.store.get_components(receiver).unwrap();
    assert_eq!(c.health, Some(Health(0)));

    world.tick(&schedule, idle(), 1);
    // a second dealer event crossed the threshold: now despawned
    assert!(world.store.get_components(receiver).is_none());
    assert!(world.store.is_live(dealer));
}

#[test]
fn spawn_timer_cadence_produces_a_wave() {
    let mut config = quiet_config();
    config.spawn_interval = 5;
    let mut world = World::new(config);
    let schedule = Schedule::standard();
    world.tick(&schedule, idle(), 4);
    assert_eq!(world.store.live_entities().len(), 1, "no wave before the interval");
    world.tick(&schedule, idle(), 1);
    let live = world.store.live_entities();
    assert_eq!(live.len(), 8, "player plus one wave of seven");
    // the wave spans the spawn row, 128 apart, with the enemy handle
    let mut xs: Vec<i64> = Vec::new();
    for e in &live {
        let c = world.store.get_components(*e).unwrap();
        if c.flags.enemy {
            let p = c.position.unwrap();
            assert_eq!(p.y, 600);
            assert_eq!(c.material, Some(33));
            assert_eq!(c.health, Some(Health(1)));
            xs.push(p.x);
        }
    }
    xs.sort();
    assert_eq!(xs, vec![-384, -256, -128, 0, 128, 256, 384]);
}

#[test]
fn fire_spawns_a_laser_at_the_muzzle() {
    let mut config = quiet_config();
    config.weapon_cooldown = 1;
    let mut world = World::new(config);
    let schedule = Schedule::standard();
    let fire = InputState { left: false, right: false, fire: true };
    world.tick(&schedule, fire, 1);
    let live = world.store.live_entities();
    assert_eq!(live.len(), 2, "player plus one projectile");
    let mut found = false;
    for e in &live {
        let c = world.store.get_components(*e).unwrap();
        if let Some(l) = c.laser {
            found = true;
            assert_eq!(l, Laser { speed: 1000 });
            assert_eq!(c.position, Some(Pos { x: 500_000, y: 500_060 }));
            assert_eq!(c.material, Some(11));
            assert_eq!(c.health, Some(Health(1)));
            assert_eq!(c.damage, Some(CollisionDamage(1)));
        }
    }
    assert!(found);
    // the next tick moves the projectile by its speed and keeps the
    // cooldown from refiring
    world.tick(&schedule, idle(), 1);
    let mut laser_y: i64 = 0;
    for e in &world.store.live_entities() {
        let c = world.store.get_components(*e).unwrap();
        if c.laser.is_some() {
            laser_y = c.position.unwrap().y;
        }
    }
    assert_eq!(laser_y, 501_060);
    assert_eq!(world.store.live_entities().len(), 2, "no second projectile without a request");
}

#[test]
fn player_moves_by_held_direction() {
    let mut world = World::new(quiet_config());
    let schedule = Schedule::standard();
    let player: Entity = world.store.live_entities()[0];
    let right = InputState { left: false, right: true, fire: false };
    world.tick(&schedule, right, 2);
    let c = world.store.get_components(player).unwrap();
    // speed 400 times delta 2
    assert_eq!(c.position, Some(Pos { x: 500_800, y: 500_000 }));
    let both = InputState { left: true, right: true, fire: false };
    world.tick(&schedule, both, 2);
    let c = world.store.get_components(player).unwrap();
    assert_eq!(c.position, Some(Pos { x: 500_800, y: 500_000 }), "opposed keys cancel");
}
