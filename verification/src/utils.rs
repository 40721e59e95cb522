//! The fixed-point world-coordinate space.
//!
//! The canonical position type is [`WorldPoint`]: a 2D vector of 64-bit
//! signed integers in 1/256-meter units ("coords"). Finer transient
//! quantities — velocities, accelerations, and the sub-coordinate
//! displacement remainder of the projectile integrator — use [`FineVec2`]:
//! 1/65536-meter units ("fine"), 256 fine units to one coord.
//!
//! Conversions between the two resolutions are explicit and total:
//! `to_i64coords` rounds to the nearest coord (halves away from zero), and
//! `to_i64coords_with_rem` splits a fine vector into whole coords plus a
//! nonnegative fine remainder, conserving the value exactly.

use crate::math::{div_floor, div_round, div_round_i128, lemma_mul_abs_bound, rdiv};
use vstd::prelude::*;

verus! {

/// Fine units per coord: one coord is 1/256 m, one fine unit 1/65536 m.
pub const FINE_PER_COORD: i64 = 256;

/// Largest coordinate magnitude the collision geometry accepts; keeps every
/// intermediate determinant product within 128 bits.
pub const MAX_COORD: i64 = 0x100_0000_0000;

/// A position in the fixed-point world space, in 1/256-meter units.
#[derive(Clone, Copy, PartialEq, Eq, Structural, Debug)]
pub struct WorldPoint {
    pub x: i64,
    pub y: i64,
}

/// A vector in 1/65536-meter units: velocities (per second),
/// accelerations (per second squared), and displacement remainders.
#[derive(Clone, Copy, PartialEq, Eq, Structural, Debug)]
pub struct FineVec2 {
    pub x: i64,
    pub y: i64,
}

/// `v` is a coordinate the collision geometry accepts.
pub open spec fn coord_in_range(v: int) -> bool {
    -MAX_COORD <= v <= MAX_COORD
}

/// Both components of `p` are in the accepted coordinate range.
pub open spec fn point_in_range(p: WorldPoint) -> bool {
    coord_in_range(p.x as int) && coord_in_range(p.y as int)
}

impl WorldPoint {
    pub fn new(x: i64, y: i64) -> (p: WorldPoint)
        ensures
            p.x == x,
            p.y == y,
    {
        WorldPoint { x, y }
    }

    /// Componentwise sum.
    pub fn add(self, other: WorldPoint) -> (p: WorldPoint)
        requires
            i64::MIN <= self.x + other.x <= i64::MAX,
            i64::MIN <= self.y + other.y <= i64::MAX,
        ensures
            p.x == self.x + other.x,
            p.y == self.y + other.y,
    {
        WorldPoint { x: self.x + other.x, y: self.y + other.y }
    }

    /// Componentwise difference.
    pub fn sub(self, other: WorldPoint) -> (p: WorldPoint)
        requires
            i64::MIN <= self.x - other.x <= i64::MAX,
            i64::MIN <= self.y - other.y <= i64::MAX,
        ensures
            p.x == self.x - other.x,
            p.y == self.y - other.y,
    {
        WorldPoint { x: self.x - other.x, y: self.y - other.y }
    }
}

impl FineVec2 {
    pub fn new(x: i64, y: i64) -> (v: FineVec2)
        ensures
            v.x == x,
            v.y == y,
    {
        FineVec2 { x, y }
    }

    pub fn zero() -> (v: FineVec2)
        ensures
            v.x == 0,
            v.y == 0,
    {
        FineVec2 { x: 0, y: 0 }
    }

    /// Componentwise sum.
    pub fn add(self, other: FineVec2) -> (v: FineVec2)
        requires
            i64::MIN <= self.x + other.x <= i64::MAX,
            i64::MIN <= self.y + other.y <= i64::MAX,
        ensures
            v.x == self.x + other.x,
            v.y == self.y + other.y,
    {
        FineVec2 { x: self.x + other.x, y: self.y + other.y }
    }
}

/// A fine-unit scalar rounded to the nearest coord, halves away from zero.
pub open spec fn coord_of_fine(f: int) -> int {
    rdiv(f, 256)
}

/// Fine meters to world coords, rounding each component to the nearest
/// 1/256 m.
pub fn to_i64coords(v: FineVec2) -> (p: WorldPoint)
    requires
        i64::MIN + 256 < v.x < i64::MAX - 256,
        i64::MIN + 256 < v.y < i64::MAX - 256,
    ensures
        p.x == coord_of_fine(v.x as int),
        p.y == coord_of_fine(v.y as int),
{
    WorldPoint { x: div_round(v.x, FINE_PER_COORD), y: div_round(v.y, FINE_PER_COORD) }
}

/// World coords back to fine meters, exactly.
pub fn to_meters(p: WorldPoint) -> (v: FineVec2)
    requires
        -0x80_0000_0000_0000 < p.x < 0x80_0000_0000_0000,
        -0x80_0000_0000_0000 < p.y < 0x80_0000_0000_0000,
    ensures
        v.x == 256 * p.x,
        v.y == 256 * p.y,
{
    FineVec2 { x: p.x * FINE_PER_COORD, y: p.y * FINE_PER_COORD }
}

/// A fine vector split into whole coords plus the fine remainder left over,
/// by floor division: the remainder is always in `[0, 256)` fine units and
/// `256 * coords + remainder` re-assembles the input exactly.
pub fn to_i64coords_with_rem(v: FineVec2) -> (r: (WorldPoint, FineVec2))
    requires
        v.x >= i64::MIN + 256,
        v.y >= i64::MIN + 256,
    ensures
        256 * r.0.x + r.1.x == v.x,
        256 * r.0.y + r.1.y == v.y,
        0 <= r.1.x < 256,
        0 <= r.1.y < 256,
{
    let cx: i64 = div_floor(v.x, FINE_PER_COORD);
    let cy: i64 = div_floor(v.y, FINE_PER_COORD);
    proof {
        vstd::arithmetic::div_mod::lemma_fundamental_div_mod(v.x as int, 256);
        vstd::arithmetic::div_mod::lemma_fundamental_div_mod(v.y as int, 256);
        vstd::arithmetic::div_mod::lemma_mod_bound(v.x as int, 256);
        vstd::arithmetic::div_mod::lemma_mod_bound(v.y as int, 256);
    }
    let rx: i64 = v.x - cx * FINE_PER_COORD;
    let ry: i64 = v.y - cy * FINE_PER_COORD;
    (WorldPoint { x: cx, y: cy }, FineVec2 { x: rx, y: ry })
}

/// Converting fine meters to coords and back moves the value by at most
/// half the coordinate resolution: 128 fine units, i.e. 1/512 m.
pub proof fn lemma_round_trip(f: int)
    ensures
        -128 <= 256 * coord_of_fine(f) - f <= 128,
{
    crate::math::lemma_rdiv_error(f, 256);
}

/// The fine-to-coords conversion is monotonic.
pub proof fn lemma_conversion_monotonic(f1: int, f2: int)
    requires
        f1 <= f2,
    ensures
        coord_of_fine(f1) <= coord_of_fine(f2),
{
    crate::math::lemma_rdiv_monotone(f1, f2, 256);
}

/// 2D cross product ("perp dot") of two vectors given by components.
pub open spec fn pdot(ax: int, ay: int, bx: int, by: int) -> int {
    ax * by - ay * bx
}

/// Denominator of the two-line intersection formula for lines `ab` and `cd`.
pub open spec fn isect_den(a: WorldPoint, b: WorldPoint, c: WorldPoint, d: WorldPoint) -> int {
    pdot(a.x - b.x, c.x - d.x, a.y - b.y, c.y - d.y)
}

/// Numerator of the intersection's x coordinate.
pub open spec fn isect_x_num(a: WorldPoint, b: WorldPoint, c: WorldPoint, d: WorldPoint) -> int {
    pdot(pdot(a.x as int, a.y as int, b.x as int, b.y as int),
        pdot(c.x as int, c.y as int, d.x as int, d.y as int), a.x - b.x, c.x - d.x)
}

/// Numerator of the intersection's y coordinate.
pub open spec fn isect_y_num(a: WorldPoint, b: WorldPoint, c: WorldPoint, d: WorldPoint) -> int {
    pdot(pdot(a.x as int, a.y as int, b.x as int, b.y as int),
        pdot(c.x as int, c.y as int, d.x as int, d.y as int), a.y - b.y, c.y - d.y)
}

/// An unbounded value clamped to the `i64` range.
pub open spec fn saturate_i64(v: int) -> int {
    if v > i64::MAX {
        i64::MAX as int
    } else if v < i64::MIN {
        i64::MIN as int
    } else {
        v
    }
}

/// What the two-line intersection returns: `None` when the lines are
/// parallel (zero denominator), otherwise each exact rational coordinate
/// rounded to the nearest grid point.
pub open spec fn line_intersection(
    a: WorldPoint,
    b: WorldPoint,
    c: WorldPoint,
    d: WorldPoint,
) -> Option<(int, int)> {
    let den = isect_den(a, b, c, d);
    if den == 0 {
        None
    } else {
        Some(
            (
                saturate_i64(rdiv(isect_x_num(a, b, c, d), den)),
                saturate_i64(rdiv(isect_y_num(a, b, c, d), den)),
            ),
        )
    }
}

/// Clamp a 128-bit value into the `i64` range.
fn saturate_to_i64(v: i128) -> (r: i64)
    ensures
        r == saturate_i64(v as int),
{
    if v > i64::MAX as i128 {
        i64::MAX
    } else if v < i64::MIN as i128 {
        i64::MIN
    } else {
        v as i64
    }
}

/// Exact intersection point of the two lines through `a`,`b` and through
/// `c`,`d`, by the standard determinant formula, rounded to the nearest
/// fixed-point grid point; `None` when the determinant is zero (parallel or
/// degenerate lines).
pub fn get_intersection(
    a: WorldPoint,
    b: WorldPoint,
    c: WorldPoint,
    d: WorldPoint,
) -> (r: Option<WorldPoint>)
    requires
        point_in_range(a),
        point_in_range(b),
        point_in_range(c),
        point_in_range(d),
    ensures
        r is None <==> isect_den(a, b, c, d) == 0,
        r is Some ==> {
            let p = line_intersection(a, b, c, d)->Some_0;
            r->Some_0.x == p.0 && r->Some_0.y == p.1
        },
{
    let xd_a: i128 = a.x as i128 - b.x as i128;
    let xd_c: i128 = c.x as i128 - d.x as i128;
    let yd_a: i128 = a.y as i128 - b.y as i128;
    let yd_c: i128 = c.y as i128 - d.y as i128;
    proof {
        lemma_mul_abs_bound(xd_a as int, yd_c as int, 2 * MAX_COORD as int, 2 * MAX_COORD as int);
        lemma_mul_abs_bound(xd_c as int, yd_a as int, 2 * MAX_COORD as int, 2 * MAX_COORD as int);
    }
    let den: i128 = xd_a * yd_c - xd_c * yd_a;
    if den == 0 {
        return None;
    }
    proof {
        lemma_mul_abs_bound(a.x as int, b.y as int, MAX_COORD as int, MAX_COORD as int);
        lemma_mul_abs_bound(a.y as int, b.x as int, MAX_COORD as int, MAX_COORD as int);
        lemma_mul_abs_bound(c.x as int, d.y as int, MAX_COORD as int, MAX_COORD as int);
        lemma_mul_abs_bound(c.y as int, d.x as int, MAX_COORD as int, MAX_COORD as int);
    }
    let det_ab: i128 = (a.x as i128) * (b.y as i128) - (a.y as i128) * (b.x as i128);
    let det_cd: i128 = (c.x as i128) * (d.y as i128) - (c.y as i128) * (d.x as i128);
    proof {
        let bound: int = 2 * (MAX_COORD as int) * (MAX_COORD as int);
        lemma_mul_abs_bound(det_ab as int, xd_c as int, bound, 2 * MAX_COORD as int);
        lemma_mul_abs_bound(det_cd as int, xd_a as int, bound, 2 * MAX_COORD as int);
        lemma_mul_abs_bound(det_ab as int, yd_c as int, bound, 2 * MAX_COORD as int);
        lemma_mul_abs_bound(det_cd as int, yd_a as int, bound, 2 * MAX_COORD as int);
    }
    let x_num: i128 = det_ab * xd_c - det_cd * xd_a;
    let y_num: i128 = det_ab * yd_c - det_cd * yd_a;
    let x: i128 = div_round_i128(x_num, den);
    let y: i128 = div_round_i128(y_num, den);
    Some(WorldPoint { x: saturate_to_i64(x), y: saturate_to_i64(y) })
}

} // verus!
