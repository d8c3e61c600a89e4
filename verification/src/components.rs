//! The attribute types an entity can carry in the [`crate::world::World`]
//! registry. Capability membership is "does this entity carry attribute X":
//! the per-tick systems act on exactly the entities that do.
use vstd::prelude::*;
use crate::fixed::Fx;
use crate::fixed::Vec2;

verus! {

/// Marks the entity driven by local input (the local player's avatar and its
/// attached labels).
#[derive(Clone, Copy, Debug, PartialEq, Eq, Structural)]
pub struct PlayerTag;

/// Marks an entity driven by network messages (a remote player and its
/// attached labels).
#[derive(Clone, Copy, Debug, PartialEq, Eq, Structural)]
pub struct EnemyTag;

/// Marks a label entity that displays another entity's countdown.
#[derive(Clone, Copy, Debug, PartialEq, Eq, Structural)]
pub struct TimerTag;

/// The local player's controller: remembers the server-assigned id.
#[derive(Clone, Copy, Debug, PartialEq, Eq, Structural)]
pub struct PlayerController(pub u32);

impl PlayerController {
    pub fn new(id: u32) -> (r: PlayerController)
        ensures
            r == (PlayerController(id)),
    {
        PlayerController(id)
    }
}

/// A remote player's controller: remembers the server-assigned id.
#[derive(Clone, Copy, Debug, PartialEq, Eq, Structural)]
pub struct EnemyController(pub u32);

impl EnemyController {
    pub fn new(id: u32) -> (r: EnemyController)
        ensures
            r == (EnemyController(id)),
    {
        EnemyController(id)
    }
}

/// Movement speed in units per second, as a fixed-point scalar.
#[derive(Clone, Copy, Debug, PartialEq, Eq, Structural)]
pub struct Speed(pub Fx);

/// Remaining life in seconds, as a fixed-point scalar: the countdown.
#[derive(Clone, Copy, Debug, PartialEq, Eq, Structural)]
pub struct Time(pub Fx);

/// Instantaneous velocity in units per second.
#[derive(Clone, Copy, Debug, PartialEq, Eq, Structural)]
pub struct Velocity(pub Vec2);

/// A non-owning pointer from a label entity to the entity whose countdown it
/// displays; never used to drive teardown.
#[derive(Clone, Copy, Debug, PartialEq, Eq, Structural)]
pub struct OwnedBy(pub u64);

impl OwnedBy {
    pub fn new(entity: u64) -> (r: OwnedBy)
        ensures
            r == (OwnedBy(entity)),
    {
        OwnedBy(entity)
    }

    pub fn entity(self) -> (r: u64)
        ensures
            r == self.0,
    {
        self.0
    }
}

/// How a following entity derives its position from its target's each tick.
#[derive(Clone, Copy, Debug, PartialEq, Eq, Structural)]
pub enum FollowMode {
    /// Copy the target position exactly.
    Stick,
    /// Target position plus target velocity times this factor.
    Tween(Fx),
    /// Snap the target position to a grid: (cell size, column offset, row
    /// offset). An axis whose cell size is not positive passes through.
    SnapToGrid(Vec2, i32, i32),
}

/// A directive deriving this entity's position from another entity's.
#[derive(Clone, Copy, Debug, PartialEq, Eq, Structural)]
pub struct Follow {
    pub entity: u64,
    pub mode: FollowMode,
}

impl Follow {
    pub fn new(entity: u64) -> (r: Follow)
        ensures
            r == (Follow { entity, mode: FollowMode::Stick }),
    {
        Follow { entity, mode: FollowMode::Stick }
    }

    pub fn with_mode(entity: u64, mode: FollowMode) -> (r: Follow)
        ensures
            r == (Follow { entity, mode }),
    {
        Follow { entity, mode }
    }
}

} // verus!
