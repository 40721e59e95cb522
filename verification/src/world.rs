//! The world: a circular body with a radius, a gravity source, and a
//! generated terrain height map.
//!
//! The height map has one sample per kilometer of arc —
//! `floor(2 * pi * radius / 1000)` samples around the full circle — and is
//! a circular buffer: every access wraps modulo its length. Gravity is the
//! classic inverse-square pull toward the world's center, derived from
//! `mu = G * mass` in m^3/s^2.

use crate::math::{div_trunc_i128, is_sqrt, isqrt, lemma_mul_abs_bound, sqrt_floor, tdiv};
use crate::terrain::{
    gen_height_map, gen_sections, prefix_len, sink_ocean, smooth_at, total_len, TerrainClass,
    TerrainSection,
};
use crate::utils::{FineVec2, WorldPoint};
use vstd::prelude::*;

verus! {

/// Broad classification of a world; cosmetic for the physics core.
#[derive(Clone, Copy, PartialEq, Eq, Structural, Debug)]
pub enum WorldClass {
    Minshara,
    Desert,
    Demon,
    Gas,
}

/// Number of height-map samples around a world of the given radius in
/// meters: `floor(2 * pi * radius / 1000)`, with `2 * pi` taken to nine
/// decimal places.
pub open spec fn circumference_of(radius_m: int) -> int {
    radius_m * 6_283_185_307 / 1_000_000_000_000
}

/// The executable circumference.
pub fn circumference(radius_m: u64) -> (c: usize)
    requires
        radius_m <= 4_000_000_000,
    ensures
        c == circumference_of(radius_m as int),
        c <= 0x2000_0000,
    {
    let wide: u128 = (radius_m as u128) * 6_283_185_307;
    let c: u128 = wide / 1_000_000_000_000;
    proof {
        vstd::arithmetic::div_mod::lemma_div_is_ordered(
            wide as int,
            4_000_000_000int * 6_283_185_307,
            1_000_000_000_000,
        );
        vstd::arithmetic::div_mod::lemma_div_pos_is_pos(wide as int, 1_000_000_000_000);
    }
    c as usize
}

/// Height-map index `p` lies inside the `k`-th section's span.
pub open spec fn in_section_span(sections: Seq<TerrainSection>, k: int, p: int) -> bool {
    prefix_len(sections, k) <= p < prefix_len(sections, k + 1)
}

/// Height-map index `p` lies inside some ocean section, whose basin the
/// world builder sinks.
pub open spec fn in_ocean_span(sections: Seq<TerrainSection>, p: int) -> bool {
    exists|k: int|
        0 <= k < sections.len() && sections[k].0 == TerrainClass::Ocean && in_section_span(
            sections,
            k,
            p,
        )
}

/// Height-map index `p` lies inside the smoothing window of some section
/// boundary.
pub open spec fn in_boundary_window(sections: Seq<TerrainSection>, len: int, p: int) -> bool {
    exists|k: int, j: int|
        0 <= k < sections.len() && 0 <= j < 20 && p == crate::terrain::smooth_pos(
            prefix_len(sections, k),
            len,
            j,
        )
}

/// Height-map index `p` was touched by one of the first `s` shaping
/// passes: inside an ocean basin among them, or inside the smoothing
/// window of one of their boundaries.
pub open spec fn touched_upto(sections: Seq<TerrainSection>, len: int, s: int, p: int) -> bool {
    exists|k: int|
        0 <= k < s && ((sections[k].0 == TerrainClass::Ocean && in_section_span(sections, k, p))
            || (exists|j: int|
            0 <= j < 20 && p == crate::terrain::smooth_pos(#[trigger] prefix_len(sections, k), len, j)))
}

/// The section list a world is built from: the preset when one is given,
/// else a single plain section around the whole circumference.
pub open spec fn world_sections(preset: Option<Vec<TerrainSection>>, circ: int) -> Seq<
    TerrainSection,
> {
    if preset is Some {
        preset->0@
    } else {
        seq![(TerrainClass::Plain, circ as usize)]
    }
}

/// Squared distance between two points, in coords squared.
pub open spec fn dist_sq(a: WorldPoint, b: WorldPoint) -> int {
    (a.x - b.x) * (a.x - b.x) + (a.y - b.y) * (a.y - b.y)
}

/// A world and its generated terrain.
pub struct World {
    /// World center, in coords.
    pub position: WorldPoint,
    /// World radius, in coords (1/256 m).
    pub radius: i64,
    /// Standard gravitational parameter `G * mass`, in m^3/s^2.
    pub mu: u64,
    /// Signed height offsets from sea level, in coords, one per kilometer
    /// of arc; a circular buffer.
    pub height_map: Vec<i64>,
    /// Terrain classes with their cumulative end indices into the height
    /// map, in order.
    pub class_map: Vec<(TerrainClass, usize)>,
    pub class: WorldClass,
}

impl World {
    /// Structural invariant: coordinates and sizes the physics accepts.
    pub open spec fn wf(&self) -> bool {
        &&& -0x40_0000_0000 <= self.position.x <= 0x40_0000_0000
        &&& -0x40_0000_0000 <= self.position.y <= 0x40_0000_0000
        &&& 40_960 <= self.radius <= 0x80_0000_0000
        &&& self.mu < 0x2_0000_0000_0000
        &&& 20 <= self.height_map@.len() <= 0x2_0000_0000
        &&& forall|i: int|
            0 <= i < self.height_map@.len() ==> -0x400_0000_0000_0000
                <= #[trigger] self.height_map@[i] <= 0x400_0000_0000_0000
    }

    /// Build a world: generate the raw height map for the given sections
    /// (or the one-plain-section default), sink every ocean section into a
    /// half-sine basin, and smooth each section boundary. The height map
    /// gets exactly one sample per kilometer of circumference.
    pub fn new(
        position: WorldPoint,
        radius_m: u64,
        mu: u64,
        class: WorldClass,
        preset: Option<Vec<TerrainSection>>,
    ) -> (w: World)
        requires
            -0x40_0000_0000 <= position.x <= 0x40_0000_0000,
            -0x40_0000_0000 <= position.y <= 0x40_0000_0000,
            3_200 <= radius_m <= 2_000_000_000,
            mu < 0x2_0000_0000_0000,
            preset is Some ==> {
                &&& total_len(preset->0@) == circumference_of(radius_m as int)
                &&& 1 <= preset->0@.len() <= 16
                &&& forall|k: int| 0 <= k < preset->0@.len() ==> 1 <= (#[trigger] preset->0@[k]).1
            },
        ensures
            w.wf(),
            w.position == position,
            w.radius == 256 * radius_m,
            w.mu == mu,
            w.class == class,
            w.height_map@.len() == circumference_of(radius_m as int),
            preset is Some ==> w.class_map@.len() == preset->0@.len() && forall|k: int|
                0 <= k < preset->0@.len() ==> #[trigger] w.class_map@[k] == (
                preset->0@[k].0,
                prefix_len(preset->0@, k + 1) as usize,
            ),
            preset is None ==> w.class_map@.len() == 1 && w.class_map@[0] == (
                TerrainClass::Plain,
                w.height_map@.len() as usize,
            ),
            forall|p: int|
                0 <= p < w.height_map@.len() && !in_ocean_span(
                    world_sections(preset, w.height_map@.len() as int),
                    p,
                ) && !in_boundary_window(
                    world_sections(preset, w.height_map@.len() as int),
                    w.height_map@.len() as int,
                    p,
                ) ==> #[trigger] w.height_map@[p] == crate::terrain::base_height(
                    w.height_map@.len() as nat,
                    world_sections(preset, w.height_map@.len() as int),
                    p,
                ),
    {
        let circ: usize = circumference(radius_m);
        proof {
            lemma_circumference_window(radius_m as int);
        }
        let ghost preset0 = preset;
        let sections: Vec<TerrainSection> = match preset {
            Some(p) => p,
            None => gen_sections(circ, class),
        };
        let ghost sections_view = sections@;
        proof {
            assert(sections@ =~= world_sections(preset0, circ as int));
            assert(total_len(sections@) == circ);
            lemma_prefix_len_bounds(sections@);
        }
        let mut height_map: Vec<i64> = gen_height_map(circ, &sections);

        // cumulative class map
        let mut class_map: Vec<(TerrainClass, usize)> = Vec::new();
        let mut acc: usize = 0;
        let mut k: usize = 0;
        while k < sections.len()
            invariant
                k <= sections@.len(),
                acc == prefix_len(sections@, k as int),
                0 <= acc <= total_len(sections@),
                total_len(sections@) <= 0x2000_0000,
                class_map@.len() == k,
                forall|q: int|
                    0 <= q < k ==> #[trigger] class_map@[q] == (
                        sections@[q].0,
                        prefix_len(sections@, q + 1) as usize,
                    ),
                forall|j: int, kk: int|
                    0 <= j <= kk <= sections@.len() ==> prefix_len(sections@, j) <= prefix_len(
                        sections@,
                        kk,
                    ),
            decreases sections@.len() - k,
        {
            let (c, length): (TerrainClass, usize) = sections[k];
            proof {
                assert(prefix_len(sections@, k as int + 1) == prefix_len(sections@, k as int)
                    + sections@[k as int].1);
                lemma_prefix_monotone_public(sections@, k as int + 1, sections@.len() as int);
            }
            acc = acc + length;
            class_map.push((c, acc));
            k = k + 1;
        }

        // sink oceans and smooth each section boundary
        let mut current_index: usize = 0;
        let mut s: usize = 0;
        while s < sections.len()
            invariant
                s <= sections@.len(),
                current_index == prefix_len(sections@, s as int),
                0 <= current_index <= total_len(sections@),
                total_len(sections@) == height_map@.len(),
                20 <= height_map@.len() <= 0x2000_0000,
                sections@.len() <= 16,
                forall|k2: int| 0 <= k2 < sections@.len() ==> 1 <= (#[trigger] sections@[k2]).1,
                forall|j: int, kk: int|
                    0 <= j <= kk <= sections@.len() ==> prefix_len(sections@, j) <= prefix_len(
                        sections@,
                        kk,
                    ),
                forall|i: int|
                    0 <= i < height_map@.len() ==> -0x400_0000_0000_0000
                        <= #[trigger] height_map@[i] <= 0x400_0000_0000_0000,
                forall|i: int|
                    0 <= i < height_map@.len() ==> -shaping_bound(s as int)
                        <= #[trigger] height_map@[i] <= shaping_bound(s as int),
                forall|p: int|
                    0 <= p < height_map@.len() && !touched_upto(
                        sections@,
                        height_map@.len() as int,
                        s as int,
                        p,
                    ) ==> #[trigger] height_map@[p] == crate::terrain::base_height(
                        circ as nat,
                        sections@,
                        p,
                    ),
            decreases sections@.len() - s,
        {
            let (c, length): (TerrainClass, usize) = sections[s];
            let ghost bnd = shaping_bound(s as int);
            let ghost mid_bnd = bnd + 1_024_000;
            proof {
                assert(prefix_len(sections@, s as int + 1) == prefix_len(sections@, s as int)
                    + sections@[s as int].1);
                lemma_prefix_monotone_public(sections@, s as int + 1, sections@.len() as int);
                assert(current_index + length <= height_map@.len());
                lemma_ipow2_bounds(s as int);
                lemma_height_growth(s as int);
                assert(2_512_000 <= bnd);
                assert(2 * mid_bnd == shaping_bound(s as int + 1));
                assert(mid_bnd <= 0x100_0000_0000_0000);
            }
            let ghost h0 = height_map@;
            let is_ocean: bool = match c {
                TerrainClass::Ocean => true,
                _ => false,
            };
            if is_ocean {
                sink_ocean(&mut height_map, current_index, length);
            }
            let ghost h1 = height_map@;
            proof {
                assert(forall|p: int|
                    0 <= p < h1.len() ==> -mid_bnd <= #[trigger] h1[p] <= mid_bnd);
            }
            smooth_at(&mut height_map, current_index);
            proof {
                let len = h1.len() as int;
                let prev = (current_index + len - 1) % len;
                vstd::arithmetic::div_mod::lemma_mod_bound(current_index + len - 1, len);
                let d = h1[current_index as int] - h1[prev];
                let dm = crate::terrain::abs_int(tdiv(d, 2));
                assert(dm <= mid_bnd) by {
                    crate::math::lemma_tdiv_bound(d, 2);
                    if d >= 0 {
                        vstd::arithmetic::div_mod::lemma_div_is_ordered(d, 2 * mid_bnd, 2);
                        vstd::arithmetic::div_mod::lemma_div_by_multiple(mid_bnd, 2);
                        assert(mid_bnd * 2 == 2 * mid_bnd);
                    } else {
                        vstd::arithmetic::div_mod::lemma_div_is_ordered(-d, 2 * mid_bnd, 2);
                        vstd::arithmetic::div_mod::lemma_div_by_multiple(mid_bnd, 2);
                        assert(mid_bnd * 2 == 2 * mid_bnd);
                    }
                }
                assert(forall|p: int|
                    0 <= p < height_map@.len() ==> -shaping_bound(s as int + 1)
                        <= #[trigger] height_map@[p] <= shaping_bound(s as int + 1));
                assert forall|p: int|
                    0 <= p < height_map@.len() && !touched_upto(
                        sections@,
                        height_map@.len() as int,
                        s as int + 1,
                        p,
                    ) implies #[trigger] height_map@[p] == crate::terrain::base_height(
                    circ as nat,
                    sections@,
                    p,
                ) by {
                    // untouched through the earlier passes as well
                    assert(!touched_upto(sections@, len, s as int, p));
                    // the sink left it alone: it is not in this section's
                    // span if the section is an ocean
                    if is_ocean && prefix_len(sections@, s as int) <= p < prefix_len(
                        sections@,
                        s as int + 1,
                    ) {
                        assert(in_section_span(sections@, s as int, p));
                        assert(touched_upto(sections@, len, s as int + 1, p));
                    }
                    assert(h1[p] == h0[p]);
                    // the smoothing left it alone: it is outside this
                    // boundary's window
                    assert forall|j2: int| 0 <= j2 < 20 implies p
                        != crate::terrain::smooth_pos(current_index as int, len, j2) by {
                        if p == crate::terrain::smooth_pos(current_index as int, len, j2) {
                            assert(p == crate::terrain::smooth_pos(
                                prefix_len(sections@, s as int),
                                len,
                                j2,
                            ));
                            assert(touched_upto(sections@, len, s as int + 1, p));
                        }
                    }
                    assert(height_map@[p] == h1[p]);
                }
            }
            current_index = current_index + length;
            s = s + 1;
        }

        proof {
            assert(256 * (radius_m as int) <= 0x80_0000_0000);
            let len = height_map@.len() as int;
            assert forall|p: int|
                0 <= p < len && !in_ocean_span(sections@, p) && !in_boundary_window(
                    sections@,
                    len,
                    p,
                ) implies !touched_upto(sections@, len, sections@.len() as int, p) by {
                if touched_upto(sections@, len, sections@.len() as int, p) {
                    let k = choose|k: int|
                        0 <= k < sections@.len() && ((sections@[k].0 == TerrainClass::Ocean
                            && in_section_span(sections@, k, p)) || (exists|j: int|
                            0 <= j < 20 && p == crate::terrain::smooth_pos(
                                #[trigger] prefix_len(sections@, k),
                                len,
                                j,
                            )));
                    if sections@[k].0 == TerrainClass::Ocean && in_section_span(sections@, k, p) {
                        assert(in_ocean_span(sections@, p));
                    } else {
                        assert(in_boundary_window(sections@, len, p));
                    }
                }
            }
        }
        World {
            position,
            radius: 256 * (radius_m as i64),
            mu,
            height_map,
            class_map,
            class,
        }
    }

    /// The height sample governing index `i`, the map taken as circular.
    pub open spec fn height_at_spec(&self, i: int) -> int {
        self.height_map@[i % self.height_map@.len() as int] as int
    }

    /// Height at index `i`, wrapping around the circular map.
    pub fn height_at(&self, i: usize) -> (h: i64)
        requires
            self.wf(),
        ensures
            h == self.height_at_spec(i as int),
    {
        let len: usize = self.height_map.len();
        proof {
            vstd::arithmetic::div_mod::lemma_mod_bound(i as int, len as int);
        }
        self.height_map[i % len]
    }

    /// Terrain periodicity: the height map is a closed loop — stepping a
    /// whole circumference forward lands on the same sample.
    pub proof fn lemma_terrain_periodic(&self, i: int)
        requires
            self.wf(),
        ensures
            self.height_at_spec(i + self.height_map@.len()) == self.height_at_spec(i),
    {
        vstd::arithmetic::div_mod::lemma_mod_add_multiples_vanish(
            i,
            self.height_map@.len() as int,
        );
    }

    /// Gravitational acceleration's x component at `point`, in fine units
    /// per second squared: the inverse-square pull toward the world
    /// center, zero exactly at the center.
    pub open spec fn grativy_x_spec(&self, point: WorldPoint) -> int {
        let rx = point.x - self.position.x;
        let ry = point.y - self.position.y;
        let rr = rx * rx + ry * ry;
        if rr == 0 {
            0
        } else {
            let n = sqrt_floor(rr as nat) as int;
            -tdiv(rx * self.mu * 0x1_0000_0000, n * n * n)
        }
    }

    /// The y component of the gravitational acceleration.
    pub open spec fn grativy_y_spec(&self, point: WorldPoint) -> int {
        let rx = point.x - self.position.x;
        let ry = point.y - self.position.y;
        let rr = rx * rx + ry * ry;
        if rr == 0 {
            0
        } else {
            let n = sqrt_floor(rr as nat) as int;
            -tdiv(ry * self.mu * 0x1_0000_0000, n * n * n)
        }
    }

    /// Gravitational acceleration at `point`, in fine units per second
    /// squared: magnitude `mu / |r|^2` directed from `point` toward the
    /// world center, and zero exactly at the center (where the direction
    /// is undefined). `point` must be at least a quarter kilometer from
    /// the center or exactly on it.
    pub fn grativy_at(&self, point: WorldPoint) -> (g: FineVec2)
        requires
            self.wf(),
            crate::utils::point_in_range(point),
            dist_sq(point, self.position) == 0 || dist_sq(point, self.position) >= 0x1_0000_0000,
        ensures
            g.x == self.grativy_x_spec(point),
            g.y == self.grativy_y_spec(point),
            -self.mu <= g.x <= self.mu,
            -self.mu <= g.y <= self.mu,
    {
        let rx: i64 = point.x - self.position.x;
        let ry: i64 = point.y - self.position.y;
        proof {
            lemma_mul_abs_bound(rx as int, rx as int, 0x140_0000_0000, 0x140_0000_0000);
            lemma_mul_abs_bound(ry as int, ry as int, 0x140_0000_0000, 0x140_0000_0000);
            assert(rx as int * rx as int >= 0) by (nonlinear_arith);
            assert(ry as int * ry as int >= 0) by (nonlinear_arith);
            assert(0x140_0000_0000int * 0x140_0000_0000 == 1888946593147858085478400int)
                by (nonlinear_arith);
        }
        let rr: u128 = (rx as i128 * rx as i128) as u128 + (ry as i128 * ry as i128) as u128;
        if rr == 0 {
            return FineVec2 { x: 0, y: 0 };
        }
        let n: u64 = isqrt(rr);
        proof {
            lemma_component_within_norm(rx as int, ry as int, n as int, rr as int);
            assert(n as int * n as int >= 0x1_0000_0000) by (nonlinear_arith)
                requires
                    n as int * n as int <= rr as int,
                    (n as int + 1) * (n as int + 1) > rr as int,
                    rr >= 0x1_0000_0000,
                    n >= 1,
            ;
        }
        proof {
            assert(0 <= (n as int) * (n as int) <= 0x10_0000_0000_0000_0000_0000) by (nonlinear_arith)
                requires
                    0 <= n <= 0x400_0000_0000,
            ;
            assert(0 <= (n as int) * (n as int) * (n as int)
                <= 0x4000_0000_0000_0000_0000_0000_0000_0000) by (nonlinear_arith)
                requires
                    0 <= n <= 0x400_0000_0000,
            ;
        }
        let n3: u128 = (n as u128) * (n as u128) * (n as u128);
        proof {
            assert(n3 >= (n as int) * 0x1_0000_0000) by (nonlinear_arith)
                requires
                    n3 == (n as int) * (n as int) * (n as int),
                    (n as int) * (n as int) >= 0x1_0000_0000,
                    n >= 1,
            ;
            lemma_mul_abs_bound(rx as int, self.mu as int, 0x400_0000_0000, 0x2_0000_0000_0000);
            lemma_mul_abs_bound(
                rx as int * self.mu as int,
                0x1_0000_0000,
                0x800_0000_0000_0000_0000_0000,
                0x1_0000_0000,
            );
            lemma_mul_abs_bound(ry as int, self.mu as int, 0x400_0000_0000, 0x2_0000_0000_0000);
            lemma_mul_abs_bound(
                ry as int * self.mu as int,
                0x1_0000_0000,
                0x800_0000_0000_0000_0000_0000,
                0x1_0000_0000,
            );
        }
        let num_x: i128 = (rx as i128) * (self.mu as i128) * 0x1_0000_0000;
        let num_y: i128 = (ry as i128) * (self.mu as i128) * 0x1_0000_0000;
        let gx: i128 = div_trunc_i128(num_x, n3 as i128);
        let gy: i128 = div_trunc_i128(num_y, n3 as i128);
        proof {
            lemma_gravity_component_bound(rx as int, self.mu as int, n as int, n3 as int, gx as int);
            lemma_gravity_component_bound(ry as int, self.mu as int, n as int, n3 as int, gy as int);
        }
        FineVec2 { x: -(gx as i64), y: -(gy as i64) }
    }

    /// Altitude of `point` above sea level, in coords: its distance from
    /// the world center (floor square root) minus the radius.
    pub fn altitude_at(&self, point: WorldPoint) -> (alt: i64)
        requires
            self.wf(),
            crate::utils::point_in_range(point),
        ensures
            alt == sqrt_floor(dist_sq(point, self.position) as nat) - self.radius,
    {
        let rx: i64 = point.x - self.position.x;
        let ry: i64 = point.y - self.position.y;
        proof {
            lemma_mul_abs_bound(rx as int, rx as int, 0x140_0000_0000, 0x140_0000_0000);
            lemma_mul_abs_bound(ry as int, ry as int, 0x140_0000_0000, 0x140_0000_0000);
            assert(rx as int * rx as int >= 0) by (nonlinear_arith);
            assert(ry as int * ry as int >= 0) by (nonlinear_arith);
            assert(0x140_0000_0000int * 0x140_0000_0000 == 1888946593147858085478400int)
                by (nonlinear_arith);
        }
        let rr: u128 = (rx as i128 * rx as i128) as u128 + (ry as i128 * ry as i128) as u128;
        let n: u64 = isqrt(rr);
        proof {
            crate::math::lemma_sqrt_floor_is_sqrt(rr as nat);
            crate::math::lemma_sqrt_unique(
                rr as int,
                n as int,
                sqrt_floor(rr as nat) as int,
            );
            assert(n as int * n as int <= rr);
            assert(n <= 0x200_0000_0000) by (nonlinear_arith)
                requires
                    (n as int) * (n as int) <= rr as int,
                    rr <= 3777893186295716170956800int,
                    n >= 0,
            ;
        }
        (n as i64) - self.radius
    }

    /// The class of the terrain section covering height-map index `index`:
    /// the first class-map entry whose cumulative end reaches it.
    pub fn terrain_class(&self, index: usize) -> (c: TerrainClass)
        requires
            self.class_map@.len() >= 1,
            index <= self.class_map@[self.class_map@.len() - 1].1,
        ensures
            c == class_lookup(self.class_map@, index as int),
    {
        proof {
            assert(self.class_map@.skip(0) =~= self.class_map@);
        }
        let mut k: usize = 0;
        while k < self.class_map.len() - 1
            invariant
                k < self.class_map@.len(),
                index <= self.class_map@[self.class_map@.len() - 1].1,
                class_lookup(self.class_map@, index as int) == class_lookup(
                    self.class_map@.skip(k as int),
                    index as int,
                ),
                forall|q: int| 0 <= q < k ==> index > (#[trigger] self.class_map@[q]).1,
            decreases self.class_map@.len() - k,
        {
            let (c, end): (TerrainClass, usize) = self.class_map[k];
            if index <= end {
                proof {
                    assert(self.class_map@.skip(k as int)[0] == self.class_map@[k as int]);
                }
                return c;
            }
            proof {
                assert(self.class_map@.skip(k as int)[0] == self.class_map@[k as int]);
                assert(self.class_map@.skip(k as int).drop_first() =~= self.class_map@.skip(
                    k as int + 1,
                ));
            }
            k = k + 1;
        }
        proof {
            assert(self.class_map@.skip(k as int)[0] == self.class_map@[k as int]);
        }
        let (c, _end): (TerrainClass, usize) = self.class_map[k];
        c
    }
}

/// The class of the first entry whose cumulative end reaches `index`; the
/// last entry's class when none does.
pub open spec fn class_lookup(class_map: Seq<(TerrainClass, usize)>, index: int) -> TerrainClass
    decreases class_map.len(),
{
    if class_map.len() == 0 {
        TerrainClass::Plain
    } else if class_map.len() == 1 || index <= class_map[0].1 {
        class_map[0].0
    } else {
        class_lookup(class_map.drop_first(), index)
    }
}

/// Worlds in the accepted radius window have 20 to 2^33 samples.
proof fn lemma_circumference_window(radius_m: int)
    requires
        3_200 <= radius_m <= 2_000_000_000,
    ensures
        20 <= circumference_of(radius_m) <= 0x2_0000_0000,
{
    vstd::arithmetic::div_mod::lemma_div_is_ordered(
        3_200int * 6_283_185_307,
        radius_m * 6_283_185_307,
        1_000_000_000_000,
    );
    vstd::arithmetic::div_mod::lemma_div_is_ordered(
        radius_m * 6_283_185_307,
        2_000_000_000int * 6_283_185_307,
        1_000_000_000_000,
    );
    assert(3_200 * 6_283_185_307 <= radius_m * 6_283_185_307 <= 2_000_000_000 * 6_283_185_307)
        by (nonlinear_arith)
        requires
            3_200 <= radius_m <= 2_000_000_000,
    ;
}

/// Each prefix sum of nonnegative section lengths sits between zero and
/// the total.
proof fn lemma_prefix_len_bounds(sections: Seq<TerrainSection>)
    ensures
        forall|j: int, k: int|
            0 <= j <= k <= sections.len() ==> prefix_len(sections, j) <= prefix_len(sections, k),
        forall|k: int| 0 <= k ==> prefix_len(sections, k) >= 0,
{
    assert forall|k: int| 0 <= k implies prefix_len(sections, k) >= 0 by {
        lemma_prefix_nonneg(sections, k);
    }
    assert forall|j: int, k: int|
        0 <= j <= k <= sections.len() implies prefix_len(sections, j) <= prefix_len(
        sections,
        k,
    ) by {
        lemma_prefix_monotone_public(sections, j, k);
    }
}

/// Prefix sums are nonnegative.
proof fn lemma_prefix_nonneg(sections: Seq<TerrainSection>, k: int)
    ensures
        prefix_len(sections, k) >= 0,
    decreases k,
{
    if k > 0 {
        lemma_prefix_nonneg(sections, k - 1);
    }
}

/// Prefix sums are monotone in the number of sections.
proof fn lemma_prefix_monotone_public(sections: Seq<TerrainSection>, j: int, k: int)
    requires
        j <= k,
    ensures
        prefix_len(sections, j) <= prefix_len(sections, k),
    decreases k - j,
{
    if j < k {
        lemma_prefix_monotone_public(sections, j, k - 1);
    }
}

/// Powers of two for the height growth bound.
pub open spec fn ipow2(k: int) -> int
    decreases k,
{
    if k <= 0 {
        1
    } else {
        2 * ipow2(k - 1)
    }
}

/// `ipow2` is at least one.
proof fn lemma_ipow2_pos(k: int)
    ensures
        ipow2(k) >= 1,
    decreases k,
{
    if k > 0 {
        lemma_ipow2_pos(k - 1);
    }
}

/// `ipow2` is monotone.
proof fn lemma_ipow2_monotone(j: int, k: int)
    requires
        j <= k,
    ensures
        ipow2(j) <= ipow2(k),
    decreases k - j,
{
    if j < k {
        lemma_ipow2_monotone(j, k - 1);
        lemma_ipow2_pos(k - 1);
    }
}

/// `ipow2` stays within machine range for the few passes a world makes.
proof fn lemma_ipow2_bounds(k: int)
    requires
        k <= 17,
    ensures
        1 <= ipow2(k) <= 0x20000,
{
    lemma_ipow2_pos(k);
    lemma_ipow2_monotone(k, 17);
    assert(ipow2(17) == 0x20000) by {
        reveal_with_fuel(ipow2, 19);
    }
}

/// The uniform height bound kept through the shaping passes: exactly the
/// fixed point of "sink adds at most the basin depth, smoothing at most
/// doubles".
pub open spec fn shaping_bound(s: int) -> int {
    4_560_000 * ipow2(s) - 2_048_000
}

/// One sink-then-smooth pass sends the bound to the next one.
proof fn lemma_height_growth(s: int)
    requires
        0 <= s <= 15,
    ensures
        2 * (shaping_bound(s) + 1_024_000) == shaping_bound(s + 1),
        shaping_bound(s + 1) <= 0x200_0000_0000_0000 - 1_024_000,
{
    lemma_ipow2_bounds(s + 1);
    assert(ipow2(s + 1) == 2 * ipow2(s));
    assert(4_560_000 * ipow2(s + 1) == 2 * (4_560_000 * ipow2(s))) by (nonlinear_arith)
        requires
            ipow2(s + 1) == 2 * ipow2(s),
    ;
    assert(4_560_000 * ipow2(s + 1) <= 4_560_000 * 0x20000) by (nonlinear_arith)
        requires
            ipow2(s + 1) <= 0x20000,
    ;
}

/// A single coordinate never exceeds the norm: if `n` is the floor square
/// root of `rx^2 + ry^2`, then `|rx| <= n` and `|ry| <= n`, and `n` is
/// within the coordinate range.
proof fn lemma_component_within_norm(rx: int, ry: int, n: int, rr: int)
    requires
        rr == rx * rx + ry * ry,
        is_sqrt(rr, n),
        -0x140_0000_0000 <= rx <= 0x140_0000_0000,
        -0x140_0000_0000 <= ry <= 0x140_0000_0000,
        rr <= 3777893186295716170956800,
        rr >= 1,
    ensures
        -n <= rx <= n,
        -n <= ry <= n,
        1 <= n <= 0x400_0000_0000,
        n == sqrt_floor(rr as nat) as int,
    {
    assert(rx * rx >= 0 && ry * ry >= 0) by (nonlinear_arith);
    assert(rx * rx <= rr && ry * ry <= rr);
    assert(-n <= rx <= n) by (nonlinear_arith)
        requires
            rx * rx <= rr,
            rr < (n + 1) * (n + 1),
            n >= 0,
    ;
    assert(-n <= ry <= n) by (nonlinear_arith)
        requires
            ry * ry <= rr,
            rr < (n + 1) * (n + 1),
            n >= 0,
    ;
    assert(n <= 0x400_0000_0000) by (nonlinear_arith)
        requires
            n * n <= rr,
            rr <= 3777893186295716170956800int,
            n >= 0,
    ;
    crate::math::lemma_sqrt_floor_is_sqrt(rr as nat);
    crate::math::lemma_sqrt_unique(rr, n, sqrt_floor(rr as nat) as int);
}

/// Where the squared distance from the center also reaches `mu`, the
/// inverse-square pull cannot exceed `2^33` fine units per second squared.
pub proof fn lemma_gravity_in_proportion(world: &World, pos: WorldPoint)
    requires
        world.wf(),
        crate::utils::point_in_range(pos),
        dist_sq(pos, world.position) >= 0x1_0000_0000,
        dist_sq(pos, world.position) >= world.mu,
    ensures
        -0x2_0000_0000 <= world.grativy_x_spec(pos) <= 0x2_0000_0000,
        -0x2_0000_0000 <= world.grativy_y_spec(pos) <= 0x2_0000_0000,
{
    let rx = pos.x - world.position.x;
    let ry = pos.y - world.position.y;
    let rr = rx * rx + ry * ry;
    let mu = world.mu as int;
    assert(rx * rx >= 0 && ry * ry >= 0) by (nonlinear_arith);
    assert(rx * rx <= 1888946593147858085478400int && ry * ry <= 1888946593147858085478400int)
        by (nonlinear_arith)
        requires
            -0x140_0000_0000 <= rx <= 0x140_0000_0000,
            -0x140_0000_0000 <= ry <= 0x140_0000_0000,
    ;
    crate::math::lemma_sqrt_floor_is_sqrt(rr as nat);
    lemma_component_within_norm(rx, ry, sqrt_floor(rr as nat) as int, rr);
    let n = sqrt_floor(rr as nat) as int;
    assert(n >= 2) by (nonlinear_arith)
        requires
            rr >= 0x1_0000_0000,
            rr < (n + 1) * (n + 1),
            n >= 0,
    ;
    assert(2 * (n * n) >= rr) by (nonlinear_arith)
        requires
            n >= 2,
            rr < (n + 1) * (n + 1),
    ;
    let n3 = n * n * n;
    lemma_grav_mag(rx, mu, n, n3, rr);
    lemma_grav_mag(ry, mu, n, n3, rr);
}

/// Magnitude step of `lemma_gravity_in_proportion`, one component.
proof fn lemma_grav_mag(rc: int, mu: int, n: int, n3: int, rr: int)
    requires
        0 <= mu <= rr,
        2 <= n,
        2 * (n * n) >= rr,
        n3 == n * n * n,
        -n <= rc <= n,
    ensures
        -0x2_0000_0000 <= -tdiv(rc * mu * 0x1_0000_0000, n3) <= 0x2_0000_0000,
{
    let num = rc * mu * 0x1_0000_0000;
    let numm = if num >= 0 {
        num
    } else {
        -num
    };
    assert(numm <= n * mu * 0x1_0000_0000) by (nonlinear_arith)
        requires
            -n <= rc <= n,
            mu >= 0,
            num == rc * mu * 0x1_0000_0000,
            numm == if num >= 0 {
                num
            } else {
                -num
            },
    ;
    assert(n * mu * 0x1_0000_0000 <= n3 * 0x2_0000_0000) by (nonlinear_arith)
        requires
            mu <= 2 * (n * n),
            n3 == n * n * n,
            n >= 1,
    ;
    assert(n3 > 0) by (nonlinear_arith)
        requires
            n3 == n * n * n,
            n >= 1,
    ;
    vstd::arithmetic::div_mod::lemma_multiply_divide_le(numm, n3, 0x2_0000_0000);
    vstd::arithmetic::div_mod::lemma_div_pos_is_pos(numm, n3);
}

/// A gravity component is at most `mu` in magnitude once the point is at
/// least `2^16` coords from the center.
proof fn lemma_gravity_component_bound(rc: int, mu: int, n: int, n3: int, g: int)
    requires
        0 <= mu < 0x2_0000_0000_0000,
        1 <= n,
        n * n >= 0x1_0000_0000,
        n3 == n * n * n,
        -n <= rc <= n,
        g == tdiv(rc * mu * 0x1_0000_0000, n3),
    ensures
        -mu <= g <= mu,
{
    let num = rc * mu * 0x1_0000_0000;
    assert(n3 >= n * 0x1_0000_0000) by (nonlinear_arith)
        requires
            n3 == n * n * n,
            n * n >= 0x1_0000_0000,
            n >= 1,
    ;
    assert(n3 > 0) by (nonlinear_arith)
        requires
            n3 == n * n * n,
            n >= 1,
    ;
    let numm = if num >= 0 {
        num
    } else {
        -num
    };
    assert(numm <= n * mu * 0x1_0000_0000) by (nonlinear_arith)
        requires
            -n <= rc <= n,
            mu >= 0,
            num == rc * mu * 0x1_0000_0000,
            numm == if num >= 0 {
                num
            } else {
                -num
            },
    ;
    assert(n * mu * 0x1_0000_0000 <= n3 * mu) by (nonlinear_arith)
        requires
            n3 >= n * 0x1_0000_0000,
            mu >= 0,
            n >= 1,
    ;
    vstd::arithmetic::div_mod::lemma_multiply_divide_le(numm, n3, mu);
    assert(numm / n3 >= 0) by {
        vstd::arithmetic::div_mod::lemma_div_pos_is_pos(numm, n3);
    }
}

} // verus!
