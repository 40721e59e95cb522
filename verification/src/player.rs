//! The projectile ("player"): the one body the physics core flies.
//!
//! Its position is canonical fixed-point world coordinates; velocity and
//! acceleration are fine units (1/65536 m) per second and per second
//! squared. During the launch stages the shell derives these from the
//! trebuchet's sling tip each tick; from release onward the free-flight
//! integrator owns them.

use crate::utils::{FineVec2, WorldPoint};
use crate::world::{dist_sq, World};
use crate::math::sqrt_floor;
use vstd::prelude::*;

verus! {

/// The projectile's motion state and scalar parameters.
pub struct Player {
    /// Position in world coords.
    pub position: WorldPoint,
    /// Velocity, fine units per second.
    pub velocity: FineVec2,
    /// Acceleration accumulated for the current tick, fine units per
    /// second squared.
    pub acceleration: FineVec2,
    /// Projectile mass, milli-kg.
    pub mass: i64,
    /// Thrust acceleration the control intents apply, fine units per
    /// second squared.
    pub move_speed: i64,
}

impl Player {
    /// A projectile at rest at `position`, with the stock mass and thrust.
    pub fn new(position: WorldPoint) -> (p: Player)
        ensures
            p.position == position,
            p.velocity == (FineVec2 { x: 0, y: 0 }),
            p.acceleration == (FineVec2 { x: 0, y: 0 }),
            p.mass == 300,
            p.move_speed == 65_536_000,
    {
        Player {
            position,
            velocity: FineVec2 { x: 0, y: 0 },
            acceleration: FineVec2 { x: 0, y: 0 },
            mass: 300,
            move_speed: 65_536_000,
        }
    }

    /// Add a control-intent acceleration for this tick.
    pub fn apply_thrust(&mut self, thrust: FineVec2)
        requires
            i64::MIN <= old(self).acceleration.x + thrust.x <= i64::MAX,
            i64::MIN <= old(self).acceleration.y + thrust.y <= i64::MAX,
        ensures
            final(self).acceleration.x == old(self).acceleration.x + thrust.x,
            final(self).acceleration.y == old(self).acceleration.y + thrust.y,
            final(self).position == old(self).position,
            final(self).velocity == old(self).velocity,
            final(self).mass == old(self).mass,
            final(self).move_speed == old(self).move_speed,
    {
        self.acceleration = FineVec2 {
            x: self.acceleration.x + thrust.x,
            y: self.acceleration.y + thrust.y,
        };
    }

    /// Gravitational acceleration the world exerts on the projectile at
    /// its current position.
    pub fn get_grativy(&self, world: &World) -> (g: FineVec2)
        requires
            world.wf(),
            crate::utils::point_in_range(self.position),
            dist_sq(self.position, world.position) == 0 || dist_sq(self.position, world.position)
                >= 0x1_0000_0000,
        ensures
            g.x == world.grativy_x_spec(self.position),
            g.y == world.grativy_y_spec(self.position),
    {
        world.grativy_at(self.position)
    }

    /// The projectile's altitude above the world's sea level, in coords.
    pub fn get_altitude(&self, world: &World) -> (alt: i64)
        requires
            world.wf(),
            crate::utils::point_in_range(self.position),
        ensures
            alt == sqrt_floor(dist_sq(self.position, world.position) as nat) - world.radius,
    {
        world.altitude_at(self.position)
    }
}

} // verus!
