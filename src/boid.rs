//! Agents and the settings of the four steering rules.
use vstd::prelude::*;
use crate::geometry::{Vec2, SPEED_LIMIT, UNIT};

verus! {

/// The largest magnitude of a position coordinate, in sub-units.
pub const COORD_MAX: i64 = 0x10_0000_0000;

/// The largest magnitude of a rule modifier, in thousandths.
pub const MODIFIER_MAX: i64 = 100_000;

/// The largest separation radius, in sub-units.
pub const RADIUS_MAX: i64 = 0x40_0000_0000;

/// The largest number of agents a flock holds.
pub const MAX_BOIDS: usize = 65536;

/// One simulated agent.
#[derive(Clone, Copy, Debug, PartialEq, Eq)]
pub struct Boid {
    pub position: Vec2,
    pub velocity: Vec2,
    pub id: u32,
}

impl Boid {
    pub fn new(position: Vec2, velocity: Vec2, id: u32) -> (r: Boid)
        ensures
            r.position == position,
            r.velocity == velocity,
            r.id == id,
    {
        Boid { position, velocity, id }
    }

    /// The position lies in the representable range and the speed is within
    /// the limit.
    pub open spec fn valid(self) -> bool {
        &&& position_in_range(self.position)
        &&& velocity_in_range(self.velocity)
    }
}

pub open spec fn position_in_range(p: Vec2) -> bool {
    -COORD_MAX <= p.x <= COORD_MAX && -COORD_MAX <= p.y <= COORD_MAX
}

pub open spec fn velocity_in_range(v: Vec2) -> bool {
    &&& v.norm_sq() <= SPEED_LIMIT * SPEED_LIMIT
    &&& -SPEED_LIMIT <= v.x <= SPEED_LIMIT
    &&& -SPEED_LIMIT <= v.y <= SPEED_LIMIT
}

pub struct AvoidanceSettings {
    pub avoidance_range: i64,
    pub avoidance_modifier: i64,
}

pub struct PerceivedCenterSettings {
    pub p_center_modifier: i64,
}

pub struct VelocityMatchingSettings {
    pub velocity_matching_modifier: i64,
}

pub struct BorderConstraintSettings {
    pub border_constraint_modifier: i64,
}

/// World bounds in world units, and the rule modifiers in thousandths.
pub struct WorldSettings {
    pub world_width: u32,
    pub world_height: u32,
    pub avoidance: AvoidanceSettings,
    pub pc: PerceivedCenterSettings,
    pub velocity_matching: VelocityMatchingSettings,
    pub border_constraint: BorderConstraintSettings,
}

pub open spec fn modifier_in_range(m: i64) -> bool {
    -MODIFIER_MAX <= m <= MODIFIER_MAX
}

impl WorldSettings {
    pub open spec fn valid(&self) -> bool {
        &&& self.world_width * UNIT <= COORD_MAX
        &&& self.world_height * UNIT <= COORD_MAX
        &&& 0 <= self.avoidance.avoidance_range <= RADIUS_MAX
        &&& modifier_in_range(self.avoidance.avoidance_modifier)
        &&& modifier_in_range(self.pc.p_center_modifier)
        &&& modifier_in_range(self.velocity_matching.velocity_matching_modifier)
        &&& modifier_in_range(self.border_constraint.border_constraint_modifier)
    }
}

} // verus!
