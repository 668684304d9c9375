use vstd::prelude::*;

verus! {

/// How two touching surfaces combine a friction or restitution coefficient.
#[derive(Clone, Copy, PartialEq, Eq, Structural, Debug)]
pub enum CombineRule {
    Average,
    Min,
    Multiply,
    Max,
}

/// The rules under which the player's body takes part in the physics world.
/// Its sizes, mass and coefficients are set next to the physics engine.
#[derive(Clone, Copy, PartialEq, Eq, Structural, Debug)]
pub struct PlayerBodyRules {
    pub friction_combine: CombineRule,
    pub restitution_combine: CombineRule,
    /// Rotation is locked about all three axes: orientation is driven by the
    /// movement controller, never by torque.
    pub rotation_locked: bool,
    /// Continuous collision detection, so that a fast body does not tunnel
    /// through thin geometry.
    pub continuous_collision: bool,
    /// Whether the global gravity field pulls on the body; the movement
    /// controller applies its own acceleration instead.
    pub world_gravity: bool,
    pub can_sleep: bool,
}

/// The player's body: the lower coefficient wins against any surface, no
/// rotation, continuous collision detection, no pull from world gravity, and
/// never put to sleep.
pub fn player_body_rules() -> (r: PlayerBodyRules)
    ensures
        r.friction_combine == CombineRule::Min,
        r.restitution_combine == CombineRule::Min,
        r.rotation_locked,
        r.continuous_collision,
        !r.world_gravity,
        !r.can_sleep,
{
    PlayerBodyRules {
        friction_combine: CombineRule::Min,
        restitution_combine: CombineRule::Min,
        rotation_locked: true,
        continuous_collision: true,
        world_gravity: false,
        can_sleep: false,
    }
}

} // verus!
