//! Per-tick game systems of the Update stage: player movement and firing,
//! projectile and scenery movement, weapon cooldowns, and the timed enemy
//! spawner.

use vstd::prelude::*;
use crate::clamp_i64;
use crate::clamp_wide;
use crate::components::{
    CollisionDamage, ComponentSet, DeathBehavior, Extent, Flags, Health, InputState, Laser, Pos,
    Weapon,
};
use crate::store::{Command, CommandBuffer, Slot, Store, StoreView, lemma_wf_same_shape};
use crate::timer::Timer;

verus! {

/// Upward speed of a fired projectile, in space units per time unit.
pub const LASER_SPEED: i32 = 1000;

/// Downward scroll speed of scenery, in space units per time unit.
pub const ENV_FALL_SPEED: i32 = 256;

/// Health and contact damage every spawned combatant starts with.
pub const SPAWN_HEALTH: i64 = 1;

pub const CONTACT_DAMAGE: i64 = 1;

/// An enemy wave spans slots -3..=3 of a row, this many units apart.
pub const ENEMY_WAVE_WIDTH: usize = 7;

pub const ENEMY_SPACING: i64 = 128;

/// The row where enemy waves appear.
pub const ENEMY_ROW_Y: i64 = 600;

/// Index of the enemy visual handle in the world's handle table.
pub const ENEMY_MATERIAL_ID: usize = 2;

/// One slot after player control: a player-carrying, positioned entity
/// strafes by direction times speed times delta (saturating), and its
/// weapon, if any, latches a pending fire request while the key is down.
pub open spec fn spec_player_slot(sl: Slot, input: InputState, dt: u32) -> Slot {
    if sl.alive && sl.set.player is Some && sl.set.position is Some {
        let p = sl.set.position->0;
        let pl = sl.set.player->0;
        let np = Pos {
            x: clamp_i64(p.x + input.spec_direction() * pl.speed * dt) as i64,
            y: p.y,
        };
        let nw = match sl.set.weapon {
            Some(w) => Some(Weapon { fired: w.fired || input.fire, ..w }),
            None => None,
        };
        Slot { set: ComponentSet { position: Some(np), weapon: nw, ..sl.set }, ..sl }
    } else {
        sl
    }
}

/// The store after the player-control system.
pub open spec fn spec_player_controlled(v: StoreView, input: InputState, dt: u32) -> StoreView {
    StoreView {
        slots: Seq::new(v.slots.len(), |i: int| spec_player_slot(v.slots[i], input, dt)),
        free: v.free,
    }
}

/// Move every player entity by the held direction and latch fire requests
/// into its weapon.
pub fn player_control(store: &mut Store, input: InputState, dt: u32)
    requires
        old(store)@.wf(),
    ensures
        final(store)@ == spec_player_controlled(old(store)@, input, dt),
        final(store)@.wf(),
{
    let dir = input.direction();
    let n = store.slots.len();
    let mut i: usize = 0;
    while i < n
        invariant
            i <= n,
            n == store.slots@.len(),
            dir as int == input.spec_direction(),
            store@.free == old(store)@.free,
            forall|k: int|
                0 <= k < i as int ==> store@.slots[k] == spec_player_slot(
                    old(store)@.slots[k],
                    input,
                    dt,
                ),
            forall|k: int| i as int <= k < n as int ==> store@.slots[k] == old(store)@.slots[k],
        decreases n - i,
    {
        let mut sl = store.slots[i];
        if sl.alive {
            if let Some(pl) = sl.set.player {
                if let Some(p) = sl.set.position {
                    let sd = crate::speed_times_delta(pl.speed, dt);
                    let step: i128 = if dir < 0 {
                        -sd
                    } else if dir > 0 {
                        sd
                    } else {
                        0
                    };
                    let nx = clamp_wide(p.x as i128 + step);
                    sl.set.position = Some(Pos { x: nx, y: p.y });
                    if let Some(w) = sl.set.weapon {
                        sl.set.weapon = Some(
                            Weapon {
                                fired: w.fired || input.fire,
                                offset: w.offset,
                                cooldown: w.cooldown,
                                material_id: w.material_id,
                            },
                        );
                    }
                    store.slots[i] = sl;
                    proof {
                        let d: int = input.spec_direction();
                        let sp: int = pl.speed as int;
                        let t: int = dt as int;
                        assert(d * sp * t == d * (sp * t)) by (nonlinear_arith);
                        assert(step as int == d * (sp * t));
                    }
                }
            }
        }
        proof {
            assert(store@.slots[i as int] == spec_player_slot(old(store)@.slots[i as int], input, dt));
        }
        i = i + 1;
    }
    proof {
        assert(store@.slots =~= spec_player_controlled(old(store)@, input, dt).slots);
        assert(store@ =~= spec_player_controlled(old(store)@, input, dt));
        lemma_wf_same_shape(old(store)@, store@);
    }
}

/// One slot after laser movement: a projectile climbs by its speed times
/// delta, saturating at the range end.
pub open spec fn spec_laser_slot(sl: Slot, dt: u32) -> Slot {
    if sl.alive && sl.set.laser is Some && sl.set.position is Some {
        let p = sl.set.position->0;
        let l = sl.set.laser->0;
        let np = Pos { x: p.x, y: clamp_i64(p.y + l.speed * dt) as i64 };
        Slot { set: ComponentSet { position: Some(np), ..sl.set }, ..sl }
    } else {
        sl
    }
}

/// The store after the laser-movement system.
pub open spec fn spec_lasers_moved(v: StoreView, dt: u32) -> StoreView {
    StoreView {
        slots: Seq::new(v.slots.len(), |i: int| spec_laser_slot(v.slots[i], dt)),
        free: v.free,
    }
}

/// Move every projectile up its speed times delta.
pub fn laser_move(store: &mut Store, dt: u32)
    requires
        old(store)@.wf(),
    ensures
        final(store)@ == spec_lasers_moved(old(store)@, dt),
        final(store)@.wf(),
{
    let n = store.slots.len();
    let mut i: usize = 0;
    while i < n
        invariant
            i <= n,
            n == store.slots@.len(),
            store@.free == old(store)@.free,
            forall|k: int|
                0 <= k < i as int ==> store@.slots[k] == spec_laser_slot(old(store)@.slots[k], dt),
            forall|k: int| i as int <= k < n as int ==> store@.slots[k] == old(store)@.slots[k],
        decreases n - i,
    {
        let mut sl = store.slots[i];
        if sl.alive {
            if let Some(l) = sl.set.laser {
                if let Some(p) = sl.set.position {
                    let sd = crate::speed_times_delta(l.speed, dt);
                    let ny = clamp_wide(p.y as i128 + sd);
                    sl.set.position = Some(Pos { x: p.x, y: ny });
                    store.slots[i] = sl;
                }
            }
        }
        proof {
            assert(store@.slots[i as int] == spec_laser_slot(old(store)@.slots[i as int], dt));
        }
        i = i + 1;
    }
    proof {
        assert(store@.slots =~= spec_lasers_moved(old(store)@, dt).slots);
        assert(store@ =~= spec_lasers_moved(old(store)@, dt));
        lemma_wf_same_shape(old(store)@, store@);
    }
}

/// One slot after environment movement: scenery scrolls down a fixed speed
/// times delta, saturating at the range end.
pub open spec fn spec_env_slot(sl: Slot, dt: u32) -> Slot {
    if sl.alive && sl.set.flags.environment && sl.set.position is Some {
        let p = sl.set.position->0;
        let np = Pos { x: p.x, y: clamp_i64(p.y - ENV_FALL_SPEED * dt) as i64 };
        Slot { set: ComponentSet { position: Some(np), ..sl.set }, ..sl }
    } else {
        sl
    }
}

/// The store after the environment-movement system.
pub open spec fn spec_environment_moved(v: StoreView, dt: u32) -> StoreView {
    StoreView {
        slots: Seq::new(v.slots.len(), |i: int| spec_env_slot(v.slots[i], dt)),
        free: v.free,
    }
}

/// Scroll every `Environment` entity downward.
pub fn environment_move(store: &mut Store, dt: u32)
    requires
        old(store)@.wf(),
    ensures
        final(store)@ == spec_environment_moved(old(store)@, dt),
        final(store)@.wf(),
{
    let n = store.slots.len();
    let mut i: usize = 0;
    while i < n
        invariant
            i <= n,
            n == store.slots@.len(),
            store@.free == old(store)@.free,
            forall|k: int|
                0 <= k < i as int ==> store@.slots[k] == spec_env_slot(old(store)@.slots[k], dt),
            forall|k: int| i as int <= k < n as int ==> store@.slots[k] == old(store)@.slots[k],
        decreases n - i,
    {
        let mut sl = store.slots[i];
        if sl.alive && sl.set.flags.environment {
            if let Some(p) = sl.set.position {
                let sd = crate::speed_times_delta(ENV_FALL_SPEED, dt);
                let ny = clamp_wide(p.y as i128 - sd);
                sl.set.position = Some(Pos { x: p.x, y: ny });
                store.slots[i] = sl;
            }
        }
        proof {
            assert(store@.slots[i as int] == spec_env_slot(old(store)@.slots[i as int], dt));
        }
        i = i + 1;
    }
    proof {
        assert(store@.slots =~= spec_environment_moved(old(store)@, dt).slots);
        assert(store@ =~= spec_environment_moved(old(store)@, dt));
        lemma_wf_same_shape(old(store)@, store@);
    }
}

} // verus!

verus! {

/// Will this slot's weapon fire this tick: carrier alive and positioned,
/// cooldown finished after this tick's delta, and a fire request pending.
pub open spec fn spec_weapon_ready(sl: Slot, dt: u32) -> bool {
    &&& sl.alive
    &&& sl.set.weapon is Some
    &&& sl.set.position is Some
    &&& sl.set.weapon->0.cooldown.spec_ticked(dt as u64).finished
    &&& sl.set.weapon->0.fired
}

/// One slot after the weapons system: the cooldown ticks; a weapon that
/// fires clears its request and resets its cooldown.
pub open spec fn spec_weapon_slot(sl: Slot, dt: u32) -> Slot {
    if sl.alive && sl.set.weapon is Some && sl.set.position is Some {
        let w = sl.set.weapon->0;
        let t = w.cooldown.spec_ticked(dt as u64);
        let nw = if t.finished && w.fired {
            Weapon {
                fired: false,
                cooldown: Timer {
                    elapsed: 0u64,
                    duration: t.duration,
                    finished: false,
                    repeating: t.repeating,
                },
                ..w
            }
        } else {
            Weapon { cooldown: t, ..w }
        };
        Slot { set: ComponentSet { weapon: Some(nw), ..sl.set }, ..sl }
    } else {
        sl
    }
}

/// The store after the weapons system.
pub open spec fn spec_weapons_ticked(v: StoreView, dt: u32) -> StoreView {
    StoreView {
        slots: Seq::new(v.slots.len(), |i: int| spec_weapon_slot(v.slots[i], dt)),
        free: v.free,
    }
}

/// The projectile record a firing weapon spawns: muzzle position (carrier
/// plus offset, saturating), the configured projectile extent, one point
/// of health and of contact damage, `Despawn` on death, bounded, and the
/// visual handle the weapon's projectile-kind id names (none when the id
/// is outside the handle table).
pub open spec fn spec_laser_set(sl: Slot, materials: Seq<u64>, laser_extent: Extent) -> ComponentSet {
    let p = sl.set.position->0;
    let w = sl.set.weapon->0;
    ComponentSet {
        position: Some(
            Pos {
                x: clamp_i64(p.x + w.offset.x) as i64,
                y: clamp_i64(p.y + w.offset.y) as i64,
            },
        ),
        extent: Some(laser_extent),
        health: Some(Health(SPAWN_HEALTH)),
        damage: Some(CollisionDamage(CONTACT_DAMAGE)),
        player: None,
        weapon: None,
        laser: Some(Laser { speed: LASER_SPEED }),
        death: Some(DeathBehavior::Despawn),
        material: if w.material_id < materials.len() {
            Some(materials[w.material_id as int])
        } else {
            None
        },
        flags: Flags { bounded: true, enemy: false, environment: false, lose_health_on_collide: true },
    }
}

/// The spawn commands the weapons system queues for slots below `n`, in
/// slot order.
pub open spec fn spec_fired_upto(
    v: StoreView,
    materials: Seq<u64>,
    laser_extent: Extent,
    dt: u32,
    n: int,
) -> Seq<Command>
    decreases n,
{
    if n <= 0 {
        Seq::empty()
    } else {
        spec_fired_upto(v, materials, laser_extent, dt, n - 1) + (if spec_weapon_ready(
            v.slots[n - 1],
            dt,
        ) {
            seq![Command::Spawn(spec_laser_set(v.slots[n - 1], materials, laser_extent))]
        } else {
            Seq::empty()
        })
    }
}

/// All spawn commands one weapons pass queues.
pub open spec fn spec_fired_list(
    v: StoreView,
    materials: Seq<u64>,
    laser_extent: Extent,
    dt: u32,
) -> Seq<Command> {
    spec_fired_upto(v, materials, laser_extent, dt, v.slots.len() as int)
}

/// Tick every weapon's cooldown; each weapon whose cooldown has finished
/// and whose fire request is pending queues one projectile spawn, clears
/// the request and resets the cooldown.
pub fn weapons(
    store: &mut Store,
    commands: &mut CommandBuffer,
    materials: &Vec<u64>,
    laser_extent: Extent,
    dt: u32,
)
    requires
        old(store)@.wf(),
    ensures
        final(store)@ == spec_weapons_ticked(old(store)@, dt),
        final(store)@.wf(),
        final(commands)@ == old(commands)@ + spec_fired_list(
            old(store)@,
            materials@,
            laser_extent,
            dt,
        ),
{
    let n = store.slots.len();
    let mut i: usize = 0;
    while i < n
        invariant
            i <= n,
            n == store.slots@.len(),
            store@.free == old(store)@.free,
            forall|k: int|
                0 <= k < i as int ==> store@.slots[k] == spec_weapon_slot(old(store)@.slots[k], dt),
            forall|k: int| i as int <= k < n as int ==> store@.slots[k] == old(store)@.slots[k],
            commands@ == old(commands)@ + spec_fired_upto(
                old(store)@,
                materials@,
                laser_extent,
                dt,
                i as int,
            ),
        decreases n - i,
    {
        let ghost prevcmds = commands@;
        let mut sl = store.slots[i];
        if sl.alive {
            if let Some(w0) = sl.set.weapon {
                if let Some(p) = sl.set.position {
                    let mut w = w0;
                    w.cooldown.tick(dt as u64);
                    if w.cooldown.finished && w.fired {
                        let lx = clamp_wide(p.x as i128 + w.offset.x as i128);
                        let ly = clamp_wide(p.y as i128 + w.offset.y as i128);
                        let mat = if w.material_id < materials.len() {
                            Some(materials[w.material_id])
                        } else {
                            None
                        };
                        commands.queue_spawn(
                            ComponentSet {
                                position: Some(Pos { x: lx, y: ly }),
                                extent: Some(laser_extent),
                                health: Some(Health(SPAWN_HEALTH)),
                                damage: Some(CollisionDamage(CONTACT_DAMAGE)),
                                player: None,
                                weapon: None,
                                laser: Some(Laser { speed: LASER_SPEED }),
                                death: Some(DeathBehavior::Despawn),
                                material: mat,
                                flags: Flags {
                                    bounded: true,
                                    enemy: false,
                                    environment: false,
                                    lose_health_on_collide: true,
                                },
                            },
                        );
                        w.fired = false;
                        w.cooldown.reset();
                    }
                    sl.set.weapon = Some(w);
                    store.slots[i] = sl;
                }
            }
        }
        proof {
            assert(store@.slots[i as int] == spec_weapon_slot(old(store)@.slots[i as int], dt));
            if spec_weapon_ready(old(store)@.slots[i as int], dt) {
                assert(spec_fired_upto(old(store)@, materials@, laser_extent, dt, i as int + 1)
                    == spec_fired_upto(old(store)@, materials@, laser_extent, dt, i as int) + seq![
                    Command::Spawn(
                        spec_laser_set(old(store)@.slots[i as int], materials@, laser_extent),
                    ),
                ]);
                assert(commands@ =~= old(commands)@ + spec_fired_upto(
                    old(store)@,
                    materials@,
                    laser_extent,
                    dt,
                    i as int + 1,
                ));
            } else {
                assert(spec_fired_upto(old(store)@, materials@, laser_extent, dt, i as int + 1)
                    == spec_fired_upto(old(store)@, materials@, laser_extent, dt, i as int) + Seq::<
                    Command,
                >::empty());
                assert(commands@ =~= old(commands)@ + spec_fired_upto(
                    old(store)@,
                    materials@,
                    laser_extent,
                    dt,
                    i as int + 1,
                ));
            }
        }
        i = i + 1;
    }
    proof {
        assert(store@.slots =~= spec_weapons_ticked(old(store)@, dt).slots);
        assert(store@ =~= spec_weapons_ticked(old(store)@, dt));
        lemma_wf_same_shape(old(store)@, store@);
    }
}

/// The record one enemy of a wave carries: wave slot `k` of the row, the
/// configured enemy extent, one point of health and of contact damage,
/// `Despawn` on death, and the enemy/environment/bounded markers.
pub open spec fn spec_enemy_set(k: int, materials: Seq<u64>, enemy_extent: Extent) -> ComponentSet {
    ComponentSet {
        position: Some(Pos { x: ((k - 3) * ENEMY_SPACING) as i64, y: ENEMY_ROW_Y }),
        extent: Some(enemy_extent),
        health: Some(Health(SPAWN_HEALTH)),
        damage: Some(CollisionDamage(CONTACT_DAMAGE)),
        player: None,
        weapon: None,
        laser: None,
        death: Some(DeathBehavior::Despawn),
        material: if ENEMY_MATERIAL_ID < materials.len() {
            Some(materials[ENEMY_MATERIAL_ID as int])
        } else {
            None
        },
        flags: Flags { bounded: true, enemy: true, environment: true, lose_health_on_collide: true },
    }
}

/// A full enemy wave: one spawn per row slot, left to right.
pub open spec fn spec_enemy_wave(materials: Seq<u64>, enemy_extent: Extent) -> Seq<Command> {
    Seq::new(ENEMY_WAVE_WIDTH as nat, |k: int| Command::Spawn(spec_enemy_set(k, materials, enemy_extent)))
}

/// Tick the spawn-interval timer; on each completed cycle queue one full
/// enemy wave across the spawn row.
pub fn enemy_spawn(
    spawn_timer: &mut Timer,
    commands: &mut CommandBuffer,
    materials: &Vec<u64>,
    enemy_extent: Extent,
    dt: u32,
)
    ensures
        *final(spawn_timer) == old(spawn_timer).spec_ticked(dt as u64),
        final(commands)@ == old(commands)@ + (if old(spawn_timer).spec_ticked(
            dt as u64,
        ).finished {
            spec_enemy_wave(materials@, enemy_extent)
        } else {
            Seq::<Command>::empty()
        }),
{
    spawn_timer.tick(dt as u64);
    if spawn_timer.finished {
        let ghost wave = spec_enemy_wave(materials@, enemy_extent);
        let mat = if ENEMY_MATERIAL_ID < materials.len() {
            Some(materials[ENEMY_MATERIAL_ID])
        } else {
            None
        };
        let mut k: usize = 0;
        while k < ENEMY_WAVE_WIDTH
            invariant
                k <= ENEMY_WAVE_WIDTH,
                wave == spec_enemy_wave(materials@, enemy_extent),
                mat == (if ENEMY_MATERIAL_ID < materials@.len() {
                    Some(materials@[ENEMY_MATERIAL_ID as int])
                } else {
                    None::<u64>
                }),
                commands@ == old(commands)@ + wave.take(k as int),
            decreases ENEMY_WAVE_WIDTH - k,
        {
            let x: i64 = (k as i64 - 3) * ENEMY_SPACING;
            commands.queue_spawn(
                ComponentSet {
                    position: Some(Pos { x, y: ENEMY_ROW_Y }),
                    extent: Some(enemy_extent),
                    health: Some(Health(SPAWN_HEALTH)),
                    damage: Some(CollisionDamage(CONTACT_DAMAGE)),
                    player: None,
                    weapon: None,
                    laser: None,
                    death: Some(DeathBehavior::Despawn),
                    material: mat,
                    flags: Flags {
                        bounded: true,
                        enemy: true,
                        environment: true,
                        lose_health_on_collide: true,
                    },
                },
            );
            proof {
                assert(wave[k as int] == Command::Spawn(
                    spec_enemy_set(k as int, materials@, enemy_extent),
                ));
                assert(wave.take(k as int + 1) =~= wave.take(k as int).push(wave[k as int]));
                assert(commands@ =~= old(commands)@ + wave.take(k as int + 1));
            }
            k = k + 1;
        }
        proof {
            assert(wave.take(ENEMY_WAVE_WIDTH as int) =~= wave);
        }
    } else {
        proof {
            assert(commands@ =~= commands@ + Seq::<Command>::empty());
        }
    }
}

} // verus!
