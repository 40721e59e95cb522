//! Collision detection between the flying projectile and the terrain, and
//! the fixed-step free-flight integrator that drives it.
//!
//! A terrain segment is a directed pair of adjacent surface points. A point
//! on the counter-clockwise side of the directed segment lies above the
//! terrain; callers order the two endpoints so that this holds of their
//! winding. A tick's straight path from the current to the candidate next
//! position collides when the candidate ends at or below the terrain line
//! and the exact two-line intersection is defined.

use crate::math::{
    div_floor, div_trunc, fdiv, isqrt, lemma_mul_abs_bound, sqrt_floor, tdiv,
};
use crate::player::Player;
use crate::stats::Stats;
use crate::utils::{
    get_intersection, isect_den, line_intersection, point_in_range, FineVec2, WorldPoint,
};
use crate::world::{dist_sq, World};
use vstd::prelude::*;

verus! {

/// Which way the turn `p -> q -> r` bends.
#[derive(Clone, Copy, PartialEq, Eq, Structural, Debug)]
pub enum Orientation {
    Clockwise,
    AntiClockwise,
    Colinear,
}

/// 2D cross product of the directed turn `p -> q -> r`; its sign classifies
/// the orientation.
pub open spec fn turn_cross(p: WorldPoint, q: WorldPoint, r: WorldPoint) -> int {
    (q.y - p.y) * (r.x - q.x) - (q.x - p.x) * (r.y - q.y)
}

/// The orientation the sign of `turn_cross` names.
pub open spec fn orientation_of(p: WorldPoint, q: WorldPoint, r: WorldPoint) -> Orientation {
    let c = turn_cross(p, q, r);
    if c > 0 {
        Orientation::Clockwise
    } else if c < 0 {
        Orientation::AntiClockwise
    } else {
        Orientation::Colinear
    }
}

/// Classify point `r` against the directed segment `p -> q` by the sign of
/// the 2D cross product: clockwise, counter-clockwise, or exactly collinear.
pub fn orientation(p: WorldPoint, q: WorldPoint, r: WorldPoint) -> (o: Orientation)
    requires
        point_in_range(p),
        point_in_range(q),
        point_in_range(r),
    ensures
        o == orientation_of(p, q, r),
{
    proof {
        lemma_turn_cross_bounded(p, q, r);
    }
    let c: i128 = ((q.y as i128) - (p.y as i128)) * ((r.x as i128) - (q.x as i128)) - ((q.x
        as i128) - (p.x as i128)) * ((r.y as i128) - (q.y as i128));
    if c > 0 {
        Orientation::Clockwise
    } else if c < 0 {
        Orientation::AntiClockwise
    } else {
        Orientation::Colinear
    }
}

/// The turn cross product of in-range points stays far inside 128 bits.
proof fn lemma_turn_cross_bounded(p: WorldPoint, q: WorldPoint, r: WorldPoint)
    requires
        point_in_range(p),
        point_in_range(q),
        point_in_range(r),
    ensures
        -0x10_0000_0000_0000_0000_0000 <= (q.y - p.y) * (r.x - q.x) <= 0x10_0000_0000_0000_0000_0000,
        -0x10_0000_0000_0000_0000_0000 <= (q.x - p.x) * (r.y - q.y) <= 0x10_0000_0000_0000_0000_0000,
{
    assert(-0x10_0000_0000_0000_0000_0000 <= (q.y - p.y) * (r.x - q.x)
        <= 0x10_0000_0000_0000_0000_0000) by (nonlinear_arith)
        requires
            -0x200_0000_0000 <= q.y - p.y <= 0x200_0000_0000,
            -0x200_0000_0000 <= r.x - q.x <= 0x200_0000_0000,
    ;
    assert(-0x10_0000_0000_0000_0000_0000 <= (q.x - p.x) * (r.y - q.y)
        <= 0x10_0000_0000_0000_0000_0000) by (nonlinear_arith)
        requires
            -0x200_0000_0000 <= q.x - p.x <= 0x200_0000_0000,
            -0x200_0000_0000 <= r.y - q.y <= 0x200_0000_0000,
    ;
}

/// What a tick's collision test reports: `None` when the candidate next
/// position stays strictly above the terrain line, or when the intersection
/// determinant degenerates; otherwise the landing point on the segment line.
pub open spec fn collision_of(
    terrain_a: WorldPoint,
    terrain_b: WorldPoint,
    position: WorldPoint,
    next_position: WorldPoint,
) -> Option<(int, int)> {
    if orientation_of(terrain_a, terrain_b, next_position) == Orientation::AntiClockwise {
        None
    } else {
        line_intersection(terrain_a, terrain_b, position, next_position)
    }
}

/// Collision test for one tick of free flight across the terrain segment
/// `terrain_a -> terrain_b`: no collision while the candidate next position
/// is strictly above the terrain; otherwise the exact crossing point of the
/// terrain line and the path line, and `None` again when the two lines are
/// parallel (the caller then keeps the uncorrected position).
pub fn ground_collision(
    terrain_a: WorldPoint,
    terrain_b: WorldPoint,
    position: WorldPoint,
    next_position: WorldPoint,
) -> (r: Option<WorldPoint>)
    requires
        point_in_range(terrain_a),
        point_in_range(terrain_b),
        point_in_range(position),
        point_in_range(next_position),
    ensures
        r is Some <==> collision_of(terrain_a, terrain_b, position, next_position) is Some,
        r is Some ==> {
            let p = collision_of(terrain_a, terrain_b, position, next_position)->Some_0;
            r->Some_0.x == p.0 && r->Some_0.y == p.1
        },
{
    if orientation(terrain_a, terrain_b, next_position) == Orientation::AntiClockwise {
        return None;
    }
    get_intersection(terrain_a, terrain_b, position, next_position)
}

/// Length of one physics tick, microseconds: one millisecond.
pub const PHYSICS_TICK_US: u64 = 1000;

/// Floor norm of a vector given by components.
pub open spec fn vnorm(x: int, y: int) -> int {
    sqrt_floor((x * x + y * y) as nat) as int
}

/// The tick's total acceleration: what the controls accumulated plus
/// gravity at the current position.
pub open spec fn tick_accel(world: &World, player: &Player) -> (int, int) {
    (
        player.acceleration.x + world.grativy_x_spec(player.position),
        player.acceleration.y + world.grativy_y_spec(player.position),
    )
}

/// The tick's displacement in fine units: `v * dt + a * dt^2 / 2` with
/// `dt` one millisecond, each term rounded toward zero.
pub open spec fn tick_displacement(v: FineVec2, a: (int, int)) -> (int, int) {
    (tdiv(v.x as int, 1000) + tdiv(a.0, 2_000_000), tdiv(v.y as int, 1000) + tdiv(a.1, 2_000_000))
}

/// The candidate next position: the current one plus the whole coords in
/// the pending displacement, by floor division.
pub open spec fn candidate_next(pos: WorldPoint, pending: (int, int)) -> WorldPoint {
    WorldPoint { x: (pos.x + fdiv(pending.0, 256)) as i64, y: (pos.y + fdiv(pending.1, 256)) as i64 }
}

/// The leapfrog velocity update: `v + (a_old + a_new) * dt / 2`, rounded
/// toward zero, with gravity re-evaluated at the candidate next position.
pub open spec fn tick_velocity(world: &World, v: FineVec2, a: (int, int), next: WorldPoint) -> (
    int,
    int,
) {
    (
        v.x + tdiv(a.0 + world.grativy_x_spec(next), 2000),
        v.y + tdiv(a.1 + world.grativy_y_spec(next), 2000),
    )
}

/// The fixed-timestep driver of free flight: the frame-time accumulator
/// and the pending sub-coordinate displacement that preserves motion finer
/// than the fixed-point grid.
pub struct Physics {
    /// Wall time not yet consumed by whole ticks, microseconds.
    pub time_acc_us: u64,
    /// Displacement accumulated but not yet drained into the projectile's
    /// integer position, fine units.
    pub displacement: FineVec2,
}

impl Physics {
    /// A fresh driver with nothing pending.
    pub fn init() -> (p: Physics)
        ensures
            p.time_acc_us == 0,
            p.displacement == (FineVec2 { x: 0, y: 0 }),
    {
        Physics { time_acc_us: 0, displacement: FineVec2 { x: 0, y: 0 } }
    }

    /// Add a frame's elapsed wall time to the accumulator.
    pub fn accumulate(&mut self, frame_us: u64)
        requires
            old(self).time_acc_us + frame_us <= u64::MAX,
        ensures
            final(self).time_acc_us == old(self).time_acc_us + frame_us,
            final(self).displacement == old(self).displacement,
    {
        self.time_acc_us = self.time_acc_us + frame_us;
    }

    /// Take one tick's worth of time off the accumulator if a whole tick
    /// is pending; says whether it was.
    pub fn consume_tick(&mut self) -> (ticked: bool)
        ensures
            ticked == (old(self).time_acc_us > PHYSICS_TICK_US),
            ticked ==> final(self).time_acc_us == old(self).time_acc_us - PHYSICS_TICK_US,
            !ticked ==> final(self).time_acc_us == old(self).time_acc_us,
            final(self).displacement == old(self).displacement,
    {
        if self.time_acc_us > PHYSICS_TICK_US {
            self.time_acc_us = self.time_acc_us - PHYSICS_TICK_US;
            true
        } else {
            false
        }
    }

    /// One millisecond of free flight across the terrain segment
    /// `terrain_a -> terrain_b`:
    ///
    /// 1. add gravity at the current position to the accumulated controls;
    /// 2. accumulate the tick's displacement `v dt + a dt^2 / 2` into the
    ///    pending buffer rather than moving the integer position;
    /// 3. re-evaluate gravity at the candidate next position and update
    ///    the velocity by the averaged accelerations (leapfrog);
    /// 4. update the running statistics (time, path length, peak altitude
    ///    at the current position, peak speed);
    /// 5. test the straight path against the terrain segment: on a
    ///    collision, clamp the position to the crossing point, zero the
    ///    motion and the pending buffer, and report a landing.
    ///
    /// The integer position is otherwise left to `commit_displacement` at
    /// the end of the frame.
    pub fn tick(
        &mut self,
        player: &mut Player,
        world: &World,
        terrain_a: WorldPoint,
        terrain_b: WorldPoint,
        stats: &mut Stats,
    ) -> (landed: bool)
        requires
            world.wf(),
            point_in_range(terrain_a),
            point_in_range(terrain_b),
            -0xFF_0000_0000 <= old(player).position.x <= 0xFF_0000_0000,
            -0xFF_0000_0000 <= old(player).position.y <= 0xFF_0000_0000,
            -0x1_0000_0000 <= old(player).velocity.x <= 0x1_0000_0000,
            -0x1_0000_0000 <= old(player).velocity.y <= 0x1_0000_0000,
            -0x1_0000_0000 <= old(player).acceleration.x <= 0x1_0000_0000,
            -0x1_0000_0000 <= old(player).acceleration.y <= 0x1_0000_0000,
            -0x100_0000 <= old(self).displacement.x <= 0x100_0000,
            -0x100_0000 <= old(self).displacement.y <= 0x100_0000,
            dist_sq(old(player).position, world.position) >= 0x40_0000_0000,
            dist_sq(old(player).position, world.position) >= world.mu,
            old(stats).time_us <= 0xFFFF_FFFF_0000_0000,
            old(stats).distance <= 0x4000_0000_0000_0000,
            old(stats).max_altitude >= 0,
        ensures
            ({
                let a1 = tick_accel(world, old(player));
                let disp = tick_displacement(old(player).velocity, a1);
                let pending = (
                    old(self).displacement.x + disp.0,
                    old(self).displacement.y + disp.1,
                );
                let next = candidate_next(old(player).position, pending);
                let coll = collision_of(terrain_a, terrain_b, old(player).position, next);
                let v2 = tick_velocity(world, old(player).velocity, a1, next);
                &&& landed == (coll is Some)
                &&& final(self).time_acc_us == old(self).time_acc_us
                &&& final(player).acceleration == (FineVec2 { x: 0, y: 0 })
                &&& final(player).mass == old(player).mass
                &&& final(player).move_speed == old(player).move_speed
                &&& (landed ==> {
                    &&& final(player).position.x == coll->Some_0.0
                    &&& final(player).position.y == coll->Some_0.1
                    &&& final(player).velocity == (FineVec2 { x: 0, y: 0 })
                    &&& final(self).displacement == (FineVec2 { x: 0, y: 0 })
                })
                &&& (!landed ==> {
                    &&& final(player).position == old(player).position
                    &&& final(player).velocity.x == v2.0
                    &&& final(player).velocity.y == v2.1
                    &&& final(self).displacement.x == pending.0
                    &&& final(self).displacement.y == pending.1
                })
                &&& final(stats).time_us == old(stats).time_us + 1000
                &&& final(stats).distance == old(stats).distance + vnorm(disp.0, disp.1)
                &&& final(stats).max_altitude == (if sqrt_floor(
                    dist_sq(old(player).position, world.position) as nat,
                ) - world.radius > old(stats).max_altitude {
                    sqrt_floor(dist_sq(old(player).position, world.position) as nat)
                        - world.radius
                } else {
                    old(stats).max_altitude as int
                })
                &&& final(stats).max_speed == (if vnorm(v2.0, v2.1) > old(stats).max_speed {
                    vnorm(v2.0, v2.1)
                } else {
                    old(stats).max_speed as int
                })
                &&& final(stats).max_altitude >= 0
            }),
    {
        // gravity at the current position joins the accumulated controls
        let g1: FineVec2 = world.grativy_at(player.position);
        proof {
            lemma_gravity_small(world, player.position);
        }
        let ax: i64 = player.acceleration.x + g1.x;
        let ay: i64 = player.acceleration.y + g1.y;

        // the tick's displacement accumulates into the pending buffer
        proof {
            assert(4_325_376int * 1000 == 4_325_376_000) by (nonlinear_arith);
            assert(6_443int * 2_000_000 == 12_886_000_000) by (nonlinear_arith);
            crate::math::lemma_tdiv_mag_le(player.velocity.x as int, 1000, 4_325_376);
            crate::math::lemma_tdiv_mag_le(player.velocity.y as int, 1000, 4_325_376);
            crate::math::lemma_tdiv_mag_le(ax as int, 2_000_000, 6_443);
            crate::math::lemma_tdiv_mag_le(ay as int, 2_000_000, 6_443);
        }
        let dx: i64 = div_trunc(player.velocity.x, 1000) + div_trunc(ax, 2_000_000);
        let dy: i64 = div_trunc(player.velocity.y, 1000) + div_trunc(ay, 2_000_000);
        proof {
            assert(-0x45_0000 <= dx <= 0x45_0000);
            assert(-0x45_0000 <= dy <= 0x45_0000);
        }
        let px: i64 = self.displacement.x + dx;
        let py: i64 = self.displacement.y + dy;

        // candidate next position
        let nx: i64 = player.position.x + div_floor(px, 256);
        let ny: i64 = player.position.y + div_floor(py, 256);
        let next = WorldPoint { x: nx, y: ny };
        proof {
            lemma_floor_div_small(px as int);
            lemma_floor_div_small(py as int);
            lemma_next_stays_off_center(
                old(player).position.x - world.position.x,
                old(player).position.y - world.position.y,
                fdiv(px as int, 256),
                fdiv(py as int, 256),
            );
            assert(next.x - world.position.x == (old(player).position.x - world.position.x) + fdiv(
                px as int,
                256,
            ));
            assert(next.y - world.position.y == (old(player).position.y - world.position.y) + fdiv(
                py as int,
                256,
            ));
            assert(dist_sq(next, world.position) >= 0x1_0000_0000);
        }

        // leapfrog velocity update with gravity at the candidate position
        let g2: FineVec2 = world.grativy_at(next);
        proof {
            assert(283_467_841_536int * 2000 == 566_935_683_072_000) by (nonlinear_arith);
            crate::math::lemma_tdiv_mag_le(ax as int + g2.x as int, 2000, 283_467_841_536);
            crate::math::lemma_tdiv_mag_le(ay as int + g2.y as int, 2000, 283_467_841_536);
        }
        let vx: i64 = player.velocity.x + div_trunc(ax + g2.x, 2000);
        let vy: i64 = player.velocity.y + div_trunc(ay + g2.y, 2000);
        player.velocity = FineVec2 { x: vx, y: vy };
        player.acceleration = FineVec2 { x: 0, y: 0 };
        self.displacement = FineVec2 { x: px, y: py };

        // running statistics, landing tick included
        stats.time_us = stats.time_us + 1000;
        proof {
            lemma_mul_abs_bound(dx as int, dx as int, 0x45_0000, 0x45_0000);
            lemma_mul_abs_bound(dy as int, dy as int, 0x45_0000, 0x45_0000);
            assert(dx as int * dx as int >= 0) by (nonlinear_arith);
            assert(dy as int * dy as int >= 0) by (nonlinear_arith);
            assert(0x45_0000int * 0x45_0000 == 20_448_339_296_256int) by (nonlinear_arith);
        }
        let step_sq: u128 = (dx as i128 * dx as i128) as u128 + (dy as i128 * dy as i128) as u128;
        let step_len: u64 = isqrt(step_sq);
        proof {
            crate::math::lemma_sqrt_floor_is_sqrt(step_sq as nat);
            crate::math::lemma_sqrt_unique(
                step_sq as int,
                step_len as int,
                sqrt_floor(step_sq as nat) as int,
            );
            assert(step_len as int * step_len as int <= step_sq);
            assert(step_len <= 0x100_0000) by (nonlinear_arith)
                requires
                    step_len as int * step_len as int <= step_sq as int,
                    step_sq <= 40_896_678_592_512,
                    step_len >= 0,
            ;
        }
        stats.distance = stats.distance + step_len;
        let alt: i64 = world.altitude_at(player.position);
        if alt > stats.max_altitude {
            stats.max_altitude = alt;
        }
        proof {
            lemma_mul_abs_bound(vx as int, vx as int, 0x43_0000_0000, 0x43_0000_0000);
            lemma_mul_abs_bound(vy as int, vy as int, 0x43_0000_0000, 0x43_0000_0000);
            assert(vx as int * vx as int >= 0) by (nonlinear_arith);
            assert(vy as int * vy as int >= 0) by (nonlinear_arith);
            assert(0x43_0000_0000int * 0x43_0000_0000 == 82_807_434_146_882_177_204_224int)
                by (nonlinear_arith);
        }
        let speed_sq: u128 = (vx as i128 * vx as i128) as u128 + (vy as i128 * vy as i128) as u128;
        let speed: u64 = isqrt(speed_sq);
        proof {
            crate::math::lemma_sqrt_floor_is_sqrt(speed_sq as nat);
            crate::math::lemma_sqrt_unique(
                speed_sq as int,
                speed as int,
                sqrt_floor(speed_sq as nat) as int,
            );
        }
        if speed > stats.max_speed {
            stats.max_speed = speed;
        }

        // collision against the terrain segment beneath
        let hit: Option<WorldPoint> = ground_collision(
            terrain_a,
            terrain_b,
            player.position,
            next,
        );
        match hit {
            Some(point) => {
                player.position = point;
                player.velocity = FineVec2 { x: 0, y: 0 };
                self.displacement = FineVec2 { x: 0, y: 0 };
                true
            },
            None => false,
        }
    }

    /// Drain the whole coords out of the pending displacement into the
    /// projectile's integer position, once per frame: floor-with-remainder,
    /// so the remainder is always in `[0, 256)` fine units per component
    /// and no motion is lost.
    pub fn commit_displacement(&mut self, player: &mut Player)
        requires
            -0xFF_0000_0000 <= old(player).position.x <= 0xFF_0000_0000,
            -0xFF_0000_0000 <= old(player).position.y <= 0xFF_0000_0000,
            -0x10_0000_0000 <= old(self).displacement.x <= 0x10_0000_0000,
            -0x10_0000_0000 <= old(self).displacement.y <= 0x10_0000_0000,
        ensures
            final(player).position.x == old(player).position.x + fdiv(
                old(self).displacement.x as int,
                256,
            ),
            final(player).position.y == old(player).position.y + fdiv(
                old(self).displacement.y as int,
                256,
            ),
            256 * fdiv(old(self).displacement.x as int, 256) + final(self).displacement.x == old(
                self,
            ).displacement.x,
            256 * fdiv(old(self).displacement.y as int, 256) + final(self).displacement.y == old(
                self,
            ).displacement.y,
            0 <= final(self).displacement.x < 256,
            0 <= final(self).displacement.y < 256,
            final(self).time_acc_us == old(self).time_acc_us,
            final(player).velocity == old(player).velocity,
            final(player).acceleration == old(player).acceleration,
            final(player).mass == old(player).mass,
            final(player).move_speed == old(player).move_speed,
    {
        let (whole, rem) = crate::utils::to_i64coords_with_rem(self.displacement);
        proof {
            vstd::arithmetic::div_mod::lemma_fundamental_div_mod(
                self.displacement.x as int,
                256,
            );
            vstd::arithmetic::div_mod::lemma_mod_bound(self.displacement.x as int, 256);
            vstd::arithmetic::div_mod::lemma_fundamental_div_mod(
                self.displacement.y as int,
                256,
            );
            vstd::arithmetic::div_mod::lemma_mod_bound(self.displacement.y as int, 256);
        }
        player.position = WorldPoint {
            x: player.position.x + whole.x,
            y: player.position.y + whole.y,
        };
        self.displacement = rem;
    }
}

/// Where the tick may run, gravity components stay below `2^33` fine
/// units per second squared.
proof fn lemma_gravity_small(world: &World, pos: WorldPoint)
    requires
        world.wf(),
        point_in_range(pos),
        dist_sq(pos, world.position) >= 0x40_0000_0000,
        dist_sq(pos, world.position) >= world.mu,
    ensures
        -0x2_0000_0000 <= world.grativy_x_spec(pos) <= 0x2_0000_0000,
        -0x2_0000_0000 <= world.grativy_y_spec(pos) <= 0x2_0000_0000,
{
    crate::world::lemma_gravity_in_proportion(world, pos);
}

/// A pending displacement within `0x145_0000` fine units drains to at most
/// `0x1_8000` whole coords.
proof fn lemma_floor_div_small(p: int)
    requires
        -0x145_0000 <= p <= 0x145_0000,
    ensures
        -0x1_8000 <= fdiv(p, 256) <= 0x1_8000,
{
    vstd::arithmetic::div_mod::lemma_div_is_ordered(p, 0x145_0000, 256);
    vstd::arithmetic::div_mod::lemma_div_is_ordered(-0x145_0000, p, 256);
    assert(83_200int * 256 == 0x145_0000) by (nonlinear_arith);
    assert(0x145_0000int / 256 == 83_200) by {
        vstd::arithmetic::div_mod::lemma_div_by_multiple(83_200, 256);
    }
    assert((-0x145_0000int) / 256 == -83_200) by {
        assert((-83_200int) * 256 == -0x145_0000) by (nonlinear_arith);
        vstd::arithmetic::div_mod::lemma_fundamental_div_mod_converse(
            -0x145_0000,
            256,
            -83_200,
            0,
        );
    }
}

/// Stepping at most `0x1_8000` coords from a point at least `2^19` coords
/// from the world center leaves it at least `2^16` coords away.
proof fn lemma_next_stays_off_center(rx: int, ry: int, sx: int, sy: int)
    requires
        rx * rx + ry * ry >= 0x40_0000_0000,
        -0x1_8000 <= sx <= 0x1_8000,
        -0x1_8000 <= sy <= 0x1_8000,
        -0x140_0000_0000 <= rx <= 0x140_0000_0000,
        -0x140_0000_0000 <= ry <= 0x140_0000_0000,
    ensures
        (rx + sx) * (rx + sx) + (ry + sy) * (ry + sy) >= 0x1_0000_0000,
{
    assert(rx * rx >= 0 && ry * ry >= 0) by (nonlinear_arith);
    let nxv = rx + sx;
    let nyv = ry + sy;
    assert(nxv * nxv >= 0 && nyv * nyv >= 0) by (nonlinear_arith);
    if rx * rx >= 0x20_0000_0000 {
        assert(rx >= 370_000 || rx <= -370_000) by (nonlinear_arith)
            requires
                rx * rx >= 0x20_0000_0000,
        ;
        assert(nxv >= 271_696 || nxv <= -271_696);
        assert(nxv * nxv >= 0x1_0000_0000) by (nonlinear_arith)
            requires
                nxv >= 271_696 || nxv <= -271_696,
        ;
    } else {
        assert(ry * ry >= 0x20_0000_0000);
        assert(ry >= 370_000 || ry <= -370_000) by (nonlinear_arith)
            requires
                ry * ry >= 0x20_0000_0000,
        ;
        assert(nyv >= 271_696 || nyv <= -271_696);
        assert(nyv * nyv >= 0x1_0000_0000) by (nonlinear_arith)
            requires
                nyv >= 271_696 || nyv <= -271_696,
        ;
    }
}

} // verus!
