//! Component data attached to entities, and the plain records shared with
//! the world outside the kernel (input state, world bounds).
//!
//! Positions and speeds are fixed-point integers in abstract space units;
//! durations and cooldowns are timers over abstract time units. Visual
//! handles are opaque identifiers handed in by an asset provider at setup;
//! the kernel stores and re-attaches them but never interprets them.

use vstd::prelude::*;
use crate::timer::Timer;

verus! {

/// A position in the plane.
#[derive(Clone, Copy, PartialEq, Eq, Structural, Debug)]
pub struct Pos {
    pub x: i64,
    pub y: i64,
}

/// Width and height of an axis-aligned bounding box used for overlap tests.
#[derive(Clone, Copy, PartialEq, Eq, Structural, Debug)]
pub struct Extent {
    pub w: u32,
    pub h: u32,
}

/// Hit points. An entity may carry negative health; only Cleanup acts on it.
#[derive(Clone, Copy, PartialEq, Eq, Structural, Debug)]
pub struct Health(pub i64);

/// Damage dealt to the other side of a collision.
#[derive(Clone, Copy, PartialEq, Eq, Structural, Debug)]
pub struct CollisionDamage(pub i64);

/// The player marker with its horizontal movement speed (units per time unit).
#[derive(Clone, Copy, PartialEq, Eq, Structural, Debug)]
pub struct Player {
    pub speed: i32,
}

/// A weapon: a pending fire request, a muzzle offset from the carrier's
/// position, a cooldown timer, and the index of the projectile's visual
/// handle in the world's handle table.
#[derive(Clone, Copy, PartialEq, Eq, Structural, Debug)]
pub struct Weapon {
    pub fired: bool,
    pub offset: Pos,
    pub cooldown: Timer,
    pub material_id: usize,
}

/// A projectile with its upward speed (units per time unit).
#[derive(Clone, Copy, PartialEq, Eq, Structural, Debug)]
pub struct Laser {
    pub speed: i32,
}

/// What Cleanup does to an entity whose health has crossed the death
/// threshold (strictly below zero).
#[derive(Clone, Copy, PartialEq, Eq, Structural, Debug)]
pub enum DeathBehavior {
    /// Buffer a despawn command.
    Despawn,
    /// Leave the entity in place, negative health and all, so later systems
    /// can still inspect it.
    Persist,
}

/// Payload-free marker components, kept as one flag set per entity.
#[derive(Clone, Copy, PartialEq, Eq, Structural, Debug)]
pub struct Flags {
    /// Despawned by Cleanup once it leaves the world bounds.
    pub bounded: bool,
    /// An enemy ship.
    pub enemy: bool,
    /// Scenery that scrolls downward each tick.
    pub environment: bool,
    /// Loses health when the other side of a collision deals damage.
    pub lose_health_on_collide: bool,
}

impl Flags {
    /// No marker set.
    pub open spec fn spec_none_set() -> Flags {
        Flags { bounded: false, enemy: false, environment: false, lose_health_on_collide: false }
    }

    pub fn none_set() -> (r: Flags)
        ensures
            r == Flags::spec_none_set(),
    {
        Flags { bounded: false, enemy: false, environment: false, lose_health_on_collide: false }
    }
}

/// Broad-phase collision layers an entity may belong to, reserved for
/// future pair filtering; the detector itself reports every overlapping
/// pair.
#[derive(Clone, Copy, PartialEq, Eq, Structural, Debug)]
pub enum CollisionLayer {
    Player,
    Enemies,
    PlayerProjectiles,
    EnemyProjectiles,
}

/// The layers an entity collides with, reserved alongside
/// [`CollisionLayer`] for future pair filtering.
pub struct CollidesWith(pub Vec<CollisionLayer>);

/// The full component record a spawn request carries; also the per-slot
/// storage record of the component tables. Absent components are `None`.
#[derive(Clone, Copy, PartialEq, Eq, Structural, Debug)]
pub struct ComponentSet {
    pub position: Option<Pos>,
    pub extent: Option<Extent>,
    pub health: Option<Health>,
    pub damage: Option<CollisionDamage>,
    pub player: Option<Player>,
    pub weapon: Option<Weapon>,
    pub laser: Option<Laser>,
    pub death: Option<DeathBehavior>,
    pub material: Option<u64>,
    pub flags: Flags,
}

impl ComponentSet {
    /// The record with every component absent.
    pub open spec fn spec_empty() -> ComponentSet {
        ComponentSet {
            position: None,
            extent: None,
            health: None,
            damage: None,
            player: None,
            weapon: None,
            laser: None,
            death: None,
            material: None,
            flags: Flags::spec_none_set(),
        }
    }

    pub fn empty() -> (r: ComponentSet)
        ensures
            r == ComponentSet::spec_empty(),
    {
        ComponentSet {
            position: None,
            extent: None,
            health: None,
            damage: None,
            player: None,
            weapon: None,
            laser: None,
            death: None,
            material: None,
            flags: Flags::none_set(),
        }
    }
}

/// The rectangular world extent; `Bounded` entities outside it are despawned
/// by Cleanup.
#[derive(Clone, Copy, PartialEq, Eq, Structural, Debug)]
pub struct BoundingBox {
    pub width: u32,
    pub height: u32,
}

/// The key state an input provider hands the kernel once per tick: held
/// movement keys and whether fire was just pressed.
#[derive(Clone, Copy, PartialEq, Eq, Structural, Debug)]
pub struct InputState {
    pub left: bool,
    pub right: bool,
    pub fire: bool,
}

impl InputState {
    /// Horizontal movement direction: -1, 0 or 1.
    pub open spec fn spec_direction(self) -> int {
        (if self.left { -1int } else { 0int }) + (if self.right { 1int } else { 0int })
    }

    pub fn direction(self) -> (r: i64)
        ensures
            r as int == self.spec_direction(),
    {
        let mut d: i64 = 0;
        if self.left {
            d = d - 1;
        }
        if self.right {
            d = d + 1;
        }
        d
    }
}

} // verus!
