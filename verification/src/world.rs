//! The simulation context and the stage scheduler.
//!
//! A [`World`] owns the entity store, the collision event log and its
//! shared read cursor, the command buffer, the spawn-interval timer and the
//! singleton configuration (world bounds, visual handle table, spawn
//! extents). A [`Schedule`] is the fixed, ordered stage sequence; one
//! [`World::tick`] runs every stage in order, draining and applying the
//! command buffer at each stage boundary, so structural effects of one
//! stage become visible exactly at the start of the next.

use vstd::prelude::*;
use crate::collision::{CollisionEvent, spec_colliders, spec_detect, collision_detection};
use crate::components::{BoundingBox, ComponentSet, DeathBehavior, Extent, Flags, Health,
    CollisionDamage, InputState, Player, Pos, Weapon};
use crate::events::{EventReader, Events};
use crate::resolver::{
    bounding_box, despawn_dead, handle_collisions, spec_damaged_from, spec_doom_list,
    spec_stray_list,
};
use crate::store::{
    apply_commands, Command, CommandBuffer, Slot, Store, StoreView,
};
use crate::systems::{
    enemy_spawn, environment_move, laser_move, player_control, weapons, spec_enemy_wave,
    spec_environment_moved, spec_fired_list, spec_lasers_moved, spec_player_controlled,
    spec_weapons_ticked,
};
use crate::timer::Timer;

verus! {

/// The startup record: world bounds, spawn cadence, the player's starting
/// components, projectile and enemy extents, and the opaque visual handles
/// the asset provider produced. Immutable once the world is built.
pub struct WorldConfig {
    pub bounds: BoundingBox,
    pub spawn_interval: u64,
    pub player_position: Pos,
    pub player_speed: i32,
    pub player_extent: Extent,
    pub player_material: Option<u64>,
    pub weapon_offset: Pos,
    pub weapon_cooldown: u64,
    pub weapon_material_id: usize,
    pub laser_extent: Extent,
    pub enemy_extent: Extent,
    pub materials: Vec<u64>,
}

/// The whole simulation state for one session.
pub struct World {
    pub store: Store,
    pub events: Events<CollisionEvent>,
    pub reader: EventReader,
    pub commands: CommandBuffer,
    pub spawn_timer: Timer,
    pub bounds: BoundingBox,
    pub materials: Vec<u64>,
    pub laser_extent: Extent,
    pub enemy_extent: Extent,
}

/// The mathematical model of a [`World`].
#[verifier::ext_equal]
pub ghost struct WorldView {
    pub store: StoreView,
    pub events: Seq<CollisionEvent>,
    pub cursor: int,
    pub commands: Seq<Command>,
    pub spawn_timer: Timer,
    pub bounds: BoundingBox,
    pub materials: Seq<u64>,
    pub laser_extent: Extent,
    pub enemy_extent: Extent,
}

impl View for World {
    type V = WorldView;

    open spec fn view(&self) -> WorldView {
        WorldView {
            store: self.store@,
            events: self.events@,
            cursor: self.reader.cursor as int,
            commands: self.commands@,
            spawn_timer: self.spawn_timer,
            bounds: self.bounds,
            materials: self.materials@,
            laser_extent: self.laser_extent,
            enemy_extent: self.enemy_extent,
        }
    }
}

impl WorldView {
    /// Well-formed: the store is, and the shared cursor never runs past
    /// the end of the event log.
    pub open spec fn wf(self) -> bool {
        &&& self.store.wf()
        &&& 0 <= self.cursor <= self.events.len()
    }
}

/// The named stages of one tick, in their fixed execution order.
#[derive(Clone, Copy, PartialEq, Eq, Structural, Debug)]
pub enum StageId {
    /// Player control, projectile and scenery movement, weapon cooldowns,
    /// the enemy spawner.
    Update,
    /// The pairwise bounding-box overlap pass over a position snapshot.
    Detection,
    /// Draining collision events into health changes.
    HandleEvents,
    /// The bounds check and the death check, each buffering despawns.
    Cleanup,
}

/// The world after the Update stage: systems run sequentially in
/// registration order — player control, laser movement, weapons, the
/// enemy spawner, environment movement — each over the store the previous
/// one left.
pub open spec fn spec_update_stage(w: WorldView, input: InputState, dt: u32) -> WorldView {
    let s1 = spec_player_controlled(w.store, input, dt);
    let s2 = spec_lasers_moved(s1, dt);
    let s3 = spec_weapons_ticked(s2, dt);
    let c1 = w.commands + spec_fired_list(s2, w.materials, w.laser_extent, dt);
    let t1 = w.spawn_timer.spec_ticked(dt as u64);
    let c2 = c1 + (if t1.finished {
        spec_enemy_wave(w.materials, w.enemy_extent)
    } else {
        Seq::<Command>::empty()
    });
    let s4 = spec_environment_moved(s3, dt);
    WorldView { store: s4, commands: c2, spawn_timer: t1, ..w }
}

/// The world after the Detection stage: the events of one pairwise pass
/// over the position snapshot, appended to the log.
pub open spec fn spec_detection_stage(w: WorldView) -> WorldView {
    WorldView { events: w.events + spec_detect(spec_colliders(w.store)), ..w }
}

/// The world after the Handle-Events stage: every unread event applied in
/// send order, the shared cursor at the end of the log.
pub open spec fn spec_handle_stage(w: WorldView) -> WorldView {
    WorldView {
        store: spec_damaged_from(w.store, w.events, w.cursor),
        cursor: w.events.len() as int,
        ..w
    }
}

/// The world after the Cleanup stage: despawns buffered for every stray
/// `Bounded` entity, then for every dead entity, in that system order.
pub open spec fn spec_cleanup_stage(w: WorldView) -> WorldView {
    WorldView {
        commands: w.commands + spec_stray_list(w.store, w.bounds) + spec_doom_list(w.store),
        ..w
    }
}

/// The world after one named stage.
pub open spec fn spec_stage(w: WorldView, stage: StageId, input: InputState, dt: u32) -> WorldView {
    match stage {
        StageId::Update => spec_update_stage(w, input, dt),
        StageId::Detection => spec_detection_stage(w),
        StageId::HandleEvents => spec_handle_stage(w),
        StageId::Cleanup => spec_cleanup_stage(w),
    }
}

/// The stage boundary: the command buffer drained into the store.
pub open spec fn spec_boundary(w: WorldView) -> WorldView {
    WorldView { store: w.store.applied(w.commands), commands: Seq::<Command>::empty(), ..w }
}

/// The world after running `stages[k..]` in order, applying the command
/// buffer after every stage.
pub open spec fn spec_stages_from(
    w: WorldView,
    stages: Seq<StageId>,
    k: int,
    input: InputState,
    dt: u32,
) -> WorldView
    decreases stages.len() - k,
{
    if k < 0 || k >= stages.len() {
        w
    } else {
        spec_stages_from(spec_boundary(spec_stage(w, stages[k], input, dt)), stages, k + 1, input, dt)
    }
}

/// The world after one whole tick of schedule `stages`.
pub open spec fn spec_ticked(
    w: WorldView,
    stages: Seq<StageId>,
    input: InputState,
    dt: u32,
) -> WorldView {
    spec_stages_from(w, stages, 0, input, dt)
}

/// The fixed, named stage sequence of one tick.
pub struct Schedule {
    pub stages: Vec<StageId>,
}

impl Schedule {
    /// The standard order: Update, then Detection, then Handle-Events,
    /// then Cleanup.
    pub fn standard() -> (r: Schedule)
        ensures
            r.stages@ == seq![
                StageId::Update,
                StageId::Detection,
                StageId::HandleEvents,
                StageId::Cleanup,
            ],
    {
        let mut stages: Vec<StageId> = Vec::new();
        stages.push(StageId::Update);
        stages.push(StageId::Detection);
        stages.push(StageId::HandleEvents);
        stages.push(StageId::Cleanup);
        proof {
            assert(stages@ =~= seq![
                StageId::Update,
                StageId::Detection,
                StageId::HandleEvents,
                StageId::Cleanup,
            ]);
        }
        Schedule { stages }
    }
}

/// The component record the player starts with.
pub open spec fn spec_player_set(c: WorldConfig) -> ComponentSet {
    ComponentSet {
        position: Some(c.player_position),
        extent: Some(c.player_extent),
        health: Some(Health(1)),
        damage: Some(CollisionDamage(1)),
        player: Some(Player { speed: c.player_speed }),
        weapon: Some(
            Weapon {
                fired: false,
                offset: c.weapon_offset,
                cooldown: Timer {
                    elapsed: 0u64,
                    duration: c.weapon_cooldown,
                    finished: false,
                    repeating: false,
                },
                material_id: c.weapon_material_id,
            },
        ),
        laser: None,
        death: Some(DeathBehavior::Despawn),
        material: c.player_material,
        flags: Flags { bounded: false, enemy: false, environment: false, lose_health_on_collide: true },
    }
}

/// The world a fresh session starts from: an empty log, a zeroed cursor,
/// an empty command buffer, the repeating spawn timer, and a store holding
/// exactly the player.
pub open spec fn spec_initial_world(c: WorldConfig) -> WorldView {
    WorldView {
        store: StoreView {
            slots: seq![Slot { generation: 0u64, alive: true, set: spec_player_set(c) }],
            free: Seq::empty(),
        },
        events: Seq::empty(),
        cursor: 0,
        commands: Seq::empty(),
        spawn_timer: Timer {
            elapsed: 0u64,
            duration: c.spawn_interval,
            finished: false,
            repeating: true,
        },
        bounds: c.bounds,
        materials: c.materials@,
        laser_extent: c.laser_extent,
        enemy_extent: c.enemy_extent,
    }
}

impl World {
    /// Build the session from its configuration: set up the singleton
    /// resources and spawn the player.
    pub fn new(config: WorldConfig) -> (r: World)
        requires
            config.spawn_interval > 0,
        ensures
            r@ == spec_initial_world(config),
            r@.wf(),
    {
        let mut store = Store::new();
        store.spawn(
            ComponentSet {
                position: Some(config.player_position),
                extent: Some(config.player_extent),
                health: Some(Health(1)),
                damage: Some(CollisionDamage(1)),
                player: Some(Player { speed: config.player_speed }),
                weapon: Some(
                    Weapon {
                        fired: false,
                        offset: config.weapon_offset,
                        cooldown: Timer::new(config.weapon_cooldown, false),
                        material_id: config.weapon_material_id,
                    },
                ),
                laser: None,
                death: Some(DeathBehavior::Despawn),
                material: config.player_material,
                flags: Flags {
                    bounded: false,
                    enemy: false,
                    environment: false,
                    lose_health_on_collide: true,
                },
            },
        );
        proof {
            assert(store@.slots =~= spec_initial_world(config).store.slots);
            assert(store@.free =~= spec_initial_world(config).store.free);
        }
        let r = World {
            store,
            events: Events::new(),
            reader: EventReader::new(),
            commands: CommandBuffer::new(),
            spawn_timer: Timer::new(config.spawn_interval, true),
            bounds: config.bounds,
            materials: config.materials,
            laser_extent: config.laser_extent,
            enemy_extent: config.enemy_extent,
        };
        proof {
            assert(r@ =~~= spec_initial_world(config));
        }
        r
    }

    /// Run one named stage: its systems, sequentially, in registration
    /// order. The command buffer is not drained here — that is the
    /// boundary's job.
    pub fn run_stage(&mut self, stage: StageId, input: InputState, dt: u32)
        requires
            old(self)@.wf(),
        ensures
            final(self)@ == spec_stage(old(self)@, stage, input, dt),
            final(self)@.wf(),
    {
        match stage {
            StageId::Update => {
                player_control(&mut self.store, input, dt);
                laser_move(&mut self.store, dt);
                weapons(
                    &mut self.store,
                    &mut self.commands,
                    &self.materials,
                    self.laser_extent,
                    dt,
                );
                enemy_spawn(
                    &mut self.spawn_timer,
                    &mut self.commands,
                    &self.materials,
                    self.enemy_extent,
                    dt,
                );
                environment_move(&mut self.store, dt);
                proof {
                    assert(self@.commands =~= spec_update_stage(old(self)@, input, dt).commands);
                    assert(self@ =~~= spec_update_stage(old(self)@, input, dt));
                }
            },
            StageId::Detection => {
                collision_detection(&self.store, &mut self.events);
                proof {
                    assert(self@ =~~= spec_detection_stage(old(self)@));
                }
            },
            StageId::HandleEvents => {
                handle_collisions(&mut self.store, &self.events, &mut self.reader);
                proof {
                    assert(self@ =~~= spec_handle_stage(old(self)@));
                }
            },
            StageId::Cleanup => {
                bounding_box(&self.store, self.bounds, &mut self.commands);
                despawn_dead(&self.store, &mut self.commands);
                proof {
                    assert(self@.commands =~= spec_cleanup_stage(old(self)@).commands);
                    assert(self@ =~~= spec_cleanup_stage(old(self)@));
                }
            },
        }
    }

    /// One full tick: every stage of the schedule in order, the command
    /// buffer drained and applied after each, so structural effects of
    /// stage N are visible at the start of stage N+1 and never within N.
    pub fn tick(&mut self, schedule: &Schedule, input: InputState, dt: u32)
        requires
            old(self)@.wf(),
        ensures
            final(self)@ == spec_ticked(old(self)@, schedule.stages@, input, dt),
            final(self)@.wf(),
    {
        let n = schedule.stages.len();
        let mut k: usize = 0;
        while k < n
            invariant
                k <= n,
                n == schedule.stages@.len(),
                self@.wf(),
                spec_stages_from(self@, schedule.stages@, k as int, input, dt) == spec_stages_from(
                    old(self)@,
                    schedule.stages@,
                    0,
                    input,
                    dt,
                ),
            decreases n - k,
        {
            let ghost pre = self@;
            let stage = schedule.stages[k];
            self.run_stage(stage, input, dt);
            apply_commands(&mut self.store, &mut self.commands);
            proof {
                assert(self@ =~~= spec_boundary(spec_stage(pre, schedule.stages@[k as int], input, dt)));
                assert(spec_stages_from(pre, schedule.stages@, k as int, input, dt)
                    == spec_stages_from(self@, schedule.stages@, k as int + 1, input, dt));
            }
            k = k + 1;
        }
    }
}

} // verus!
