//! Procedural terrain: per-class noise profiles, ocean basins, and
//! boundary smoothing.
//!
//! A world's surface is a circular height map, one sample per kilometer of
//! arc, each height a signed offset from sea level in 1/256-meter units.
//! The map is generated section by section from a fixed seed: every terrain
//! class has an amplitude/frequency pair for the four-octave value noise,
//! ocean sections are additionally sunk by a half-sine basin, and each
//! section boundary is smoothed by a cosine-weighted correction over a
//! 20-sample window.

use crate::math::{div_trunc, tdiv};
use crate::perlin::{noise_table, noise_value, PerlinNoise};
use vstd::prelude::*;

verus! {

/// Seed of the terrain noise: a fixed constant, so worlds are reproducible
/// across sessions.
pub const TERRAIN_SEED: u64 = 0x6574756320696d61;

/// Plain amplitude: 500 m in height units.
pub const AMPL_PLAIN: i64 = 128_000;

/// Hills amplitude: 1000 m in height units.
pub const AMPL_HILLS: i64 = 256_000;

/// Rocky amplitude: 2000 m in height units.
pub const AMPL_ROCKY: i64 = 512_000;

/// Plain base frequency 0.001, as the denominator of `1 / den`.
pub const DEN_PLAIN: u64 = 1000;

/// Hills base frequency 0.01.
pub const DEN_HILLS: u64 = 100;

/// Rocky base frequency 0.1.
pub const DEN_ROCKY: u64 = 10;

/// Greatest extra depth of an ocean basin: 4000 m in height units.
pub const MAX_DEPTH: i64 = 1_024_000;

/// Width of the boundary-smoothing window, in height-map samples.
pub const SMOOTH_LENGTH: usize = 20;

/// The classes a terrain section can have.
#[derive(Clone, Copy, PartialEq, Eq, Structural, Debug)]
pub enum TerrainClass {
    Plain,
    Hills,
    Sands,
    Rocky,
    Ocean,
}

/// A terrain section: its class and its length in height-map samples.
pub type TerrainSection = (TerrainClass, usize);

/// Noise amplitude of a terrain class, in height units; negative for
/// oceans, whose base elevation trends below sea level.
pub open spec fn ampl_of(c: TerrainClass) -> int {
    match c {
        TerrainClass::Plain => 128_000,
        TerrainClass::Hills => 256_000,
        TerrainClass::Sands => 256_000,
        TerrainClass::Rocky => 512_000,
        TerrainClass::Ocean => -256_000,
    }
}

/// Noise base-frequency denominator of a terrain class.
pub open spec fn den_of(c: TerrainClass) -> int {
    match c {
        TerrainClass::Plain => 1000,
        TerrainClass::Hills => 100,
        TerrainClass::Sands => 1000,
        TerrainClass::Rocky => 10,
        TerrainClass::Ocean => 10,
    }
}

/// The amplitude/frequency pair of a terrain class.
pub fn class_params(c: TerrainClass) -> (r: (i64, u64))
    ensures
        r.0 == ampl_of(c),
        r.1 == den_of(c),
{
    match c {
        TerrainClass::Plain => (AMPL_PLAIN, DEN_PLAIN),
        TerrainClass::Hills => (AMPL_HILLS, DEN_HILLS),
        TerrainClass::Sands => (AMPL_HILLS, DEN_PLAIN),
        TerrainClass::Rocky => (AMPL_ROCKY, DEN_ROCKY),
        TerrainClass::Ocean => (-AMPL_HILLS, DEN_ROCKY),
    }
}

/// Summed lengths of the first `k` sections.
pub open spec fn prefix_len(sections: Seq<TerrainSection>, k: int) -> int
    decreases k,
{
    if k <= 0 {
        0
    } else {
        prefix_len(sections, k - 1) + sections[k - 1].1
    }
}

/// Summed lengths of all sections: the height map's length.
pub open spec fn total_len(sections: Seq<TerrainSection>) -> int {
    prefix_len(sections, sections.len() as int)
}

/// The class governing height-map index `i` under the given section list.
pub open spec fn section_class_at(sections: Seq<TerrainSection>, i: int) -> TerrainClass
    decreases sections.len(),
{
    if sections.len() == 0 {
        TerrainClass::Plain
    } else if i < sections[0].1 {
        sections[0].0
    } else {
        section_class_at(sections.drop_first(), i - sections[0].1)
    }
}

/// Prefix sums shift under dropping the first section.
proof fn lemma_prefix_drop(sections: Seq<TerrainSection>, k: int)
    requires
        1 <= k <= sections.len(),
    ensures
        prefix_len(sections, k) == sections[0].1 + prefix_len(sections.drop_first(), k - 1),
    decreases k,
{
    if k == 1 {
        assert(prefix_len(sections, 0) == 0);
        assert(prefix_len(sections.drop_first(), 0) == 0);
    } else {
        lemma_prefix_drop(sections, k - 1);
        assert(sections.drop_first()[k - 2] == sections[k - 1]);
        assert(prefix_len(sections, k) == prefix_len(sections, k - 1) + sections[k - 1].1);
        assert(prefix_len(sections.drop_first(), k - 1) == prefix_len(
            sections.drop_first(),
            k - 2,
        ) + sections.drop_first()[k - 2].1);
    }
}

/// Prefix sums never shrink as more sections are added.
proof fn lemma_prefix_monotone(sections: Seq<TerrainSection>, j: int, k: int)
    requires
        j <= k,
    ensures
        prefix_len(sections, j) <= prefix_len(sections, k),
    decreases k - j,
{
    if j < k {
        lemma_prefix_monotone(sections, j, k - 1);
    }
}

/// Indices inside section `k` are governed by that section's class.
proof fn lemma_class_in_section(sections: Seq<TerrainSection>, k: int, j: int)
    requires
        0 <= k < sections.len(),
        0 <= j < sections[k].1,
    ensures
        section_class_at(sections, prefix_len(sections, k) + j) == sections[k].0,
    decreases k,
{
    if k == 0 {
        assert(prefix_len(sections, 0) == 0);
    } else {
        lemma_class_in_section(sections.drop_first(), k - 1, j);
        lemma_prefix_drop(sections, k);
        assert(sections.drop_first()[k - 1] == sections[k]);
        lemma_prefix_monotone(sections, 1, k);
        assert(prefix_len(sections, 0) == 0);
        assert(prefix_len(sections, 1) == sections[0].1);
    }
}

/// Raw generated height at index `i`: the class's four-octave noise plus
/// its amplitude as a base offset.
#[verifier::opaque]
pub open spec fn base_height(circ: nat, sections: Seq<TerrainSection>, i: int) -> int {
    let c = section_class_at(sections, i);
    noise_value(noise_table(TERRAIN_SEED, circ), i, ampl_of(c), den_of(c)) + ampl_of(c)
}

/// Generate the raw height map for the given sections: for each index, the
/// four-octave noise of its section's class, offset by the amplitude. The
/// noise table has one sample per kilometer of circumference (`circ`).
#[verifier::rlimit(50)]
pub fn gen_height_map(circ: usize, sections: &Vec<TerrainSection>) -> (r: Vec<i64>)
    requires
        1 <= circ <= 0x1_0000_0000,
        total_len(sections@) <= 0x4000_0000,
    ensures
        r@.len() == total_len(sections@),
        forall|i: int| 0 <= i < r@.len() ==> #[trigger] r@[i] == base_height(circ as nat, sections@, i),
        forall|i: int| 0 <= i < r@.len() ==> -2_512_000 <= #[trigger] r@[i] <= 2_512_000,
{
    let noise = PerlinNoise::new(TERRAIN_SEED, circ);
    let mut heights: Vec<i64> = Vec::new();
    let mut k: usize = 0;
    while k < sections.len()
        invariant
            k <= sections@.len(),
            noise.wf(),
            noise.noise@ == noise_table(TERRAIN_SEED, circ as nat),
            total_len(sections@) <= 0x4000_0000,
            heights@.len() == prefix_len(sections@, k as int),
            forall|i: int|
                0 <= i < heights@.len() ==> #[trigger] heights@[i] == base_height(
                    circ as nat,
                    sections@,
                    i,
                ),
            forall|i: int| 0 <= i < heights@.len() ==> -2_512_000 <= #[trigger] heights@[i]
                <= 2_512_000,
        decreases sections@.len() - k,
    {
        let (class, length): (TerrainClass, usize) = sections[k];
        let (ampl, den): (i64, u64) = class_params(class);
        let start: usize = heights.len();
        proof {
            lemma_prefix_monotone(sections@, k as int + 1, sections@.len() as int);
            assert(prefix_len(sections@, k as int + 1) == heights@.len() + length);
        }
        let mut j: usize = 0;
        while j < length
            invariant
                j <= length,
                noise.wf(),
                noise.noise@ == noise_table(TERRAIN_SEED, circ as nat),
                0 <= k < sections@.len(),
                (class, length) == sections@[k as int],
                ampl == ampl_of(class),
                den == den_of(class),
                start == prefix_len(sections@, k as int),
                start + length <= 0x4000_0000,
                heights@.len() == start + j,
                forall|i: int|
                    0 <= i < heights@.len() ==> #[trigger] heights@[i] == base_height(
                        circ as nat,
                        sections@,
                        i,
                    ),
                forall|i: int| 0 <= i < heights@.len() ==> -2_512_000 <= #[trigger] heights@[i]
                    <= 2_512_000,
            decreases length - j,
        {
            let v: i64 = noise.get((start + j) as u64, ampl, den);
            proof {
                lemma_class_in_section(sections@, k as int, j as int);
                reveal(base_height);
                assert(v + ampl == base_height(circ as nat, sections@, start + j));
            }
            heights.push(v + ampl);
            j = j + 1;
        }
        k = k + 1;
    }
    heights
}

/// The default section layout when no preset is given: one plain section
/// all the way around.
pub fn gen_sections(circ: usize, _class: crate::world::WorldClass) -> (r: Vec<TerrainSection>)
    ensures
        r@.len() == 1,
        r@[0] == (TerrainClass::Plain, circ),
        total_len(r@) == circ,
{
    let mut v: Vec<TerrainSection> = Vec::new();
    v.push((TerrainClass::Plain, circ));
    proof {
        assert(prefix_len(v@, 0) == 0);
        assert(prefix_len(v@, 1) == circ);
    }
    v
}

/// Extra depth of an ocean basin at offset `i` into a section of length
/// `len`: the half-sine bowl `MAX_DEPTH * sin(pi * i / len)`, computed with
/// the rational approximation `sin(pi x) ~ 16 x (1 - x) / (5 - 4 x (1 - x))`,
/// floored. Zero at the section edges, deepest at its midpoint.
pub open spec fn bowl_depth(i: int, len: int) -> int {
    let t = i * (len - i);
    (1_024_000 * 16 * t) / (5 * len * len - 4 * t)
}

/// The bowl is a true depression: nonnegative, never deeper than
/// `MAX_DEPTH`, zero at the left edge, and symmetric about the midpoint.
pub proof fn lemma_bowl_depth_range(i: int, len: int)
    requires
        0 <= i <= len,
        1 <= len,
    ensures
        0 <= bowl_depth(i, len) <= 1_024_000,
        bowl_depth(0, len) == 0,
        bowl_depth(i, len) == bowl_depth(len - i, len),
        5 * len * len - 4 * (i * (len - i)) >= 4,
{
    let t = i * (len - i);
    let den = 5 * len * len - 4 * t;
    assert(t >= 0) by (nonlinear_arith)
        requires
            t == i * (len - i),
            0 <= i <= len,
    ;
    assert((len - 2 * i) * (len - 2 * i) >= 0) by (nonlinear_arith);
    assert(4 * t <= len * len) by (nonlinear_arith)
        requires
            t == i * (len - i),
            (len - 2 * i) * (len - 2 * i) >= 0,
    ;
    assert(den >= 4 * (len * len)) by (nonlinear_arith)
        requires
            den == 5 * len * len - 4 * t,
            4 * t <= len * len,
    ;
    assert(len * len >= 1) by (nonlinear_arith)
        requires
            len >= 1,
    ;
    vstd::arithmetic::div_mod::lemma_div_pos_is_pos(1_024_000 * 16 * t, den);
    assert(1_024_000 * 16 * t <= 1_024_000 * den) by (nonlinear_arith)
        requires
            16 * t <= den,
    ;
    vstd::arithmetic::div_mod::lemma_div_is_ordered(1_024_000 * 16 * t, 1_024_000 * den, den);
    vstd::arithmetic::div_mod::lemma_div_by_multiple(1_024_000, den);
    assert((len - i) * (len - (len - i)) == t) by (nonlinear_arith)
        requires
            t == i * (len - i),
    ;
}

/// Sink an ocean section: subtract the half-sine bowl from each of its
/// samples, leaving the rest of the map untouched.
pub fn sink_ocean(height_map: &mut Vec<i64>, start: usize, length: usize)
    requires
        start + length <= old(height_map)@.len(),
        1 <= length <= 0x2_0000_0000,
        forall|p: int|
            0 <= p < old(height_map)@.len() ==> -0x100_0000_0000_0000 <= #[trigger] old(
                height_map,
            )@[p] <= 0x100_0000_0000_0000,
    ensures
        final(height_map)@.len() == old(height_map)@.len(),
        forall|j: int|
            0 <= j < length ==> #[trigger] final(height_map)@[start + j] == old(height_map)@[start
                + j] - bowl_depth(j, length as int),
        forall|p: int|
            0 <= p < final(height_map)@.len() && !(start <= p < start + length)
                ==> #[trigger] final(height_map)@[p] == old(height_map)@[p],
        forall|p: int|
            0 <= p < final(height_map)@.len()
                ==> -0x100_1000_0000_0000 <= #[trigger] final(height_map)@[p]
                <= 0x100_0000_0000_0000,
        forall|p: int|
            0 <= p < final(height_map)@.len() ==> old(height_map)@[p] - 1_024_000
                <= #[trigger] final(height_map)@[p] <= old(height_map)@[p],
{
    let len_i: i128 = length as i128;
    let cap: usize = height_map.len();
    let mut j: usize = 0;
    while j < length
        invariant
            j <= length,
            len_i == length,
            1 <= length <= 0x2_0000_0000,
            cap == height_map@.len(),
            start + length <= cap,
            start + length <= height_map@.len(),
            forall|p: int|
                0 <= p < old(height_map)@.len() ==> -0x100_0000_0000_0000 <= #[trigger] old(
                    height_map,
                )@[p] <= 0x100_0000_0000_0000,
            height_map@.len() == old(height_map)@.len(),
            forall|q: int|
                0 <= q < j ==> #[trigger] height_map@[start + q] == old(height_map)@[start + q]
                    - bowl_depth(q, length as int),
            forall|p: int|
                0 <= p < height_map@.len() && !(start <= p < start + j)
                    ==> #[trigger] height_map@[p] == old(height_map)@[p],
            forall|p: int|
                0 <= p < height_map@.len() ==> -0x100_1000_0000_0000 <= #[trigger] height_map@[p]
                    <= 0x100_0000_0000_0000,
            forall|p: int|
                0 <= p < height_map@.len() ==> old(height_map)@[p] - 1_024_000
                    <= #[trigger] height_map@[p] <= old(height_map)@[p],
        decreases length - j,
    {
        let ji: i128 = j as i128;
        proof {
            assert(0 <= ji * (len_i - ji) <= len_i * len_i) by (nonlinear_arith)
                requires
                    0 <= ji <= len_i,
            ;
            assert(0 <= len_i * len_i <= 0x4_0000_0000_0000_0000) by (nonlinear_arith)
                requires
                    0 <= len_i <= 0x2_0000_0000,
            ;
            lemma_bowl_depth_range(j as int, length as int);
        }
        let t: i128 = ji * (len_i - ji);
        let den: i128 = 5 * (len_i * len_i) - 4 * t;
        proof {
            assert(0 <= t <= 0x4_0000_0000_0000_0000);
            assert(t == (j as int) * (length as int - j));
            assert(den == 5 * (length as int) * (length as int) - 4 * ((j as int) * (length as int
                - j))) by (nonlinear_arith)
                requires
                    den == 5 * ((len_i as int) * (len_i as int)) - 4 * (t as int),
                    t == (j as int) * (length as int - j),
                    len_i == length as int,
            ;
            assert(den >= 4);
        }
        proof {
            assert(0 <= t <= 0x4_0000_0000_0000_0000);
            assert(0 <= 16_384_000 * t <= 0x3e8_0000_0000_0000_0000_0000) by (nonlinear_arith)
                requires
                    0 <= t <= 0x4_0000_0000_0000_0000,
            ;
        }
        let num: i128 = 16_384_000 * t;
        let depth: i128 = num / den;
        proof {
            vstd::arithmetic::div_mod::lemma_div_pos_is_pos(num as int, den as int);
            assert(depth == bowl_depth(j as int, length as int));
        }
        let idx: usize = start + j;
        let h: i64 = height_map[idx];
        height_map.set(idx, h - (depth as i64));
        j = j + 1;
    }
}

/// The cosine smoothing weight at window offset `j`, scaled by 65536:
/// `cos(j * pi / 20) - signum(cos(j * pi / 20))`, which tapers to zero at
/// the window edges and hands the midpoint its full correction.
pub open spec fn smooth_coeff(j: int) -> int {
    if j == 0 {
        0
    } else if j == 1 {
        -807
    } else if j == 2 {
        -3208
    } else if j == 3 {
        -7143
    } else if j == 4 {
        -12516
    } else if j == 5 {
        -19195
    } else if j == 6 {
        -27015
    } else if j == 7 {
        -35783
    } else if j == 8 {
        -45284
    } else if j == 9 {
        -55284
    } else if j == 10 {
        65536
    } else if j == 11 {
        55284
    } else if j == 12 {
        45284
    } else if j == 13 {
        35783
    } else if j == 14 {
        27015
    } else if j == 15 {
        19195
    } else if j == 16 {
        12516
    } else if j == 17 {
        7143
    } else if j == 18 {
        3208
    } else if j == 19 {
        807
    } else {
        0
    }
}

/// The executable smoothing weight table.
fn smooth_coeff_at(j: usize) -> (c: i64)
    requires
        j < 20,
    ensures
        c == smooth_coeff(j as int),
        -65536 <= c <= 65536,
{
    let table: [i64; 20] = [
        0,
        -807,
        -3208,
        -7143,
        -12516,
        -19195,
        -27015,
        -35783,
        -45284,
        -55284,
        65536,
        55284,
        45284,
        35783,
        27015,
        19195,
        12516,
        7143,
        3208,
        807,
    ];
    table[j]
}

/// The smoothing correction applied at window offset `j` for a boundary
/// discontinuity `d`: half of `d`, weighted by the cosine coefficient,
/// both divisions truncated toward zero.
pub open spec fn smooth_delta(d: int, j: int) -> int {
    tdiv(tdiv(d, 2) * smooth_coeff(j), 65536)
}

/// Position of window offset `j` for a boundary at `index`, on the
/// circular map of length `len`: the window is centered on the boundary.
pub open spec fn smooth_pos(index: int, len: int, j: int) -> int {
    (index + len - 10 + j) % len
}

/// Smooth the height discontinuity at `index`: redistribute half the step
/// from the previous sample to this one as a cosine-weighted correction
/// over a 20-sample window centered on the boundary, tapering to zero at
/// the window's edges.
pub fn smooth_at(height_map: &mut Vec<i64>, index: usize)
    requires
        20 <= old(height_map)@.len() <= 0x4000_0000,
        index < old(height_map)@.len(),
        forall|p: int|
            0 <= p < old(height_map)@.len() ==> -0x200_0000_0000_0000 <= #[trigger] old(
                height_map,
            )@[p] <= 0x200_0000_0000_0000,
    ensures
        final(height_map)@.len() == old(height_map)@.len(),
        forall|j: int|
            0 <= j < 20 ==> #[trigger] final(height_map)@[smooth_pos(
                index as int,
                old(height_map)@.len() as int,
                j,
            )] == old(height_map)@[smooth_pos(index as int, old(height_map)@.len() as int, j)]
                - smooth_delta(
                old(height_map)@[index as int] - old(height_map)@[(index as int
                    + old(height_map)@.len() - 1) % old(height_map)@.len() as int],
                j,
            ),
        forall|p: int|
            0 <= p < final(height_map)@.len() && (forall|j: int|
                0 <= j < 20 ==> p != smooth_pos(index as int, old(height_map)@.len() as int, j))
                ==> #[trigger] final(height_map)@[p] == old(height_map)@[p],
        forall|p: int|
            0 <= p < final(height_map)@.len()
                ==> -0x400_0000_0000_0000 <= #[trigger] final(height_map)@[p]
                <= 0x400_0000_0000_0000,
        forall|p: int|
            0 <= p < final(height_map)@.len() ==> -abs_int(
                tdiv(
                    old(height_map)@[index as int] - old(height_map)@[(index as int + old(
                        height_map,
                    )@.len() - 1) % old(height_map)@.len() as int],
                    2,
                ),
            ) <= #[trigger] final(height_map)@[p] - old(height_map)@[p] <= abs_int(
                tdiv(
                    old(height_map)@[index as int] - old(height_map)@[(index as int + old(
                        height_map,
                    )@.len() - 1) % old(height_map)@.len() as int],
                    2,
                ),
            ),
{
    let len: usize = height_map.len();
    let prev_index: usize = (index + len - 1) % len;
    proof {
        vstd::arithmetic::div_mod::lemma_mod_bound((index + len - 1) as int, len as int);
    }
    let d: i64 = height_map[index] - height_map[prev_index];
    let a: i64 = div_trunc(d, 2);
    let ghost orig = height_map@;
    let mut j: usize = 0;
    while j < SMOOTH_LENGTH
        invariant
            j <= 20,
            len == height_map@.len(),
            len == orig.len(),
            20 <= len <= 0x4000_0000,
            index < len,
            -0x400_0000_0000_0000 <= d <= 0x400_0000_0000_0000,
            a == tdiv(d as int, 2),
            forall|q: int|
                0 <= q < j ==> #[trigger] height_map@[smooth_pos(index as int, len as int, q)]
                    == orig[smooth_pos(index as int, len as int, q)] - smooth_delta(d as int, q),
            forall|p: int|
                0 <= p < len && (forall|q: int|
                    0 <= q < j ==> p != smooth_pos(index as int, len as int, q))
                    ==> #[trigger] height_map@[p] == orig[p],
            forall|p: int|
                0 <= p < len ==> -0x200_0000_0000_0000 <= #[trigger] orig[p]
                    <= 0x200_0000_0000_0000,
            forall|p: int|
                0 <= p < len ==> -0x400_0000_0000_0000 <= #[trigger] height_map@[p]
                    <= 0x400_0000_0000_0000,
            forall|p: int|
                0 <= p < len ==> -abs_int(a as int) <= #[trigger] height_map@[p] - orig[p]
                    <= abs_int(a as int),
        decreases 20 - j,
    {
        let pos: usize = (index + len - 10 + j) % len;
        proof {
            vstd::arithmetic::div_mod::lemma_mod_bound((index + len - 10 + j) as int, len as int);
            assert(pos as int == smooth_pos(index as int, len as int, j as int));
        }
        let c: i64 = smooth_coeff_at(j);
        proof {
            crate::math::lemma_tdiv_bound(d as int, 2);
            crate::math::lemma_mul_abs_bound(
                a as int,
                c as int,
                0x400_0000_0000_0000,
                65536,
            );
            lemma_smooth_delta_mag(d as int, j as int);
        }
        let prod: i128 = (a as i128) * (c as i128);
        let delta: i64 = div_trunc_i128_to_i64(prod, 65536);
        proof {
            assert(delta == smooth_delta(d as int, j as int));
            lemma_smooth_pos_distinct(index as int, len as int);
            assert(forall|q: int|
                0 <= q < j ==> #[trigger] smooth_pos(index as int, len as int, q) != pos as int);
            assert(height_map@[pos as int] == orig[pos as int]);
        }
        let h: i64 = height_map[pos];
        height_map.set(pos, h - delta);
        j = j + 1;
    }
}

/// Truncating division of a bounded 128-bit product back into 64 bits.
fn div_trunc_i128_to_i64(n: i128, d: i128) -> (r: i64)
    requires
        d > 0,
        -0x4000_0000_0000_0000_0000 <= n <= 0x4000_0000_0000_0000_0000,
        -0x8000_0000_0000_0000 <= tdiv(n as int, d as int) <= 0x7fff_ffff_ffff_ffff,
    ensures
        r == tdiv(n as int, d as int),
{
    let q: i128 = crate::math::div_trunc_i128(n, d);
    q as i64
}

/// The smoothing correction never exceeds half the discontinuity in
/// magnitude.
pub proof fn lemma_smooth_delta_mag(d: int, j: int)
    ensures
        -abs_int(tdiv(d, 2)) <= smooth_delta(d, j) <= abs_int(tdiv(d, 2)),
{
    let a = tdiv(d, 2);
    let c = smooth_coeff(j);
    assert(-65536 <= c <= 65536);
    let am = abs_int(a);
    crate::math::lemma_mul_abs_bound(a, c, am, 65536);
    let p = a * c;
    let pm = if p >= 0 {
        p
    } else {
        -p
    };
    assert(pm <= am * 65536);
    vstd::arithmetic::div_mod::lemma_div_is_ordered(pm, am * 65536, 65536);
    vstd::arithmetic::div_mod::lemma_div_by_multiple(am, 65536);
    vstd::arithmetic::div_mod::lemma_div_pos_is_pos(pm, 65536);
}

/// Magnitude of an integer.
pub open spec fn abs_int(v: int) -> int {
    if v >= 0 {
        v
    } else {
        -v
    }
}

/// The 20 window positions of one smoothing pass are pairwise distinct on
/// a map of at least 20 samples.
pub proof fn lemma_smooth_pos_distinct(index: int, len: int)
    requires
        len >= 20,
        0 <= index < len,
    ensures
        forall|q1: int, q2: int|
            0 <= q1 < 20 && 0 <= q2 < 20 && q1 != q2 ==> smooth_pos(index, len, q1) != smooth_pos(
                index,
                len,
                q2,
            ),
{
    assert forall|q1: int, q2: int|
        0 <= q1 < 20 && 0 <= q2 < 20 && q1 != q2 implies smooth_pos(index, len, q1) != smooth_pos(
        index,
        len,
        q2,
    ) by {
        let b = index + len - 10;
        if smooth_pos(index, len, q1) == smooth_pos(index, len, q2) {
            vstd::arithmetic::div_mod::lemma_mod_bound(b + q1, len);
            vstd::arithmetic::div_mod::lemma_mod_bound(b + q2, len);
            vstd::arithmetic::div_mod::lemma_fundamental_div_mod(b + q1, len);
            vstd::arithmetic::div_mod::lemma_fundamental_div_mod(b + q2, len);
            let k1 = (b + q1) / len;
            let k2 = (b + q2) / len;
            assert(q1 - q2 == (k1 - k2) * len) by (nonlinear_arith)
                requires
                    b + q1 == len * k1 + smooth_pos(index, len, q1),
                    b + q2 == len * k2 + smooth_pos(index, len, q2),
                    smooth_pos(index, len, q1) == smooth_pos(index, len, q2),
            ;
            assert((k1 - k2) * len == 0 || (k1 - k2) * len >= len || (k1 - k2) * len <= -len)
                by (nonlinear_arith)
                requires
                    len >= 20,
            ;
        }
    }
}

/// Smoothing boundary continuity: one pass strictly shrinks the height
/// discontinuity at the boundary it was applied to, for any discontinuity
/// of at least two height units (below that the integer correction is
/// zero and the step is already below the resolution of interest).
/// The pointwise hypothesis is exactly what `smooth_at` ensures of its
/// window, so the law holds of every pass the generator makes.
pub proof fn lemma_smoothing_reduces_gap(before: Seq<i64>, after: Seq<i64>, index: int)
    requires
        before.len() == after.len(),
        20 <= before.len(),
        0 <= index < before.len(),
        abs_int(before[index] - before[(index + before.len() - 1) % before.len() as int]) >= 2,
        forall|j: int|
            0 <= j < 20 ==> #[trigger] after[smooth_pos(index, before.len() as int, j)]
                == before[smooth_pos(index, before.len() as int, j)] - smooth_delta(
                before[index] - before[(index + before.len() - 1) % before.len() as int],
                j,
            ),
    ensures
        abs_int(
            after[index] - after[(index + after.len() - 1) % after.len() as int],
        ) < abs_int(before[index] - before[(index + before.len() - 1) % before.len() as int]),
{
    let len = before.len() as int;
    let prev = (index + len - 1) % len;
    let d = before[index] - before[prev];
    let a = tdiv(d, 2);
    // window offsets 10 and 9 land exactly on the boundary pair
    assert(smooth_pos(index, len, 10) == index) by {
        vstd::arithmetic::div_mod::lemma_mod_add_multiples_vanish(index, len);
        vstd::arithmetic::div_mod::lemma_small_mod(index as nat, len as nat);
    }
    assert(smooth_pos(index, len, 9) == prev);
    assert(after[index] == before[index] - smooth_delta(d, 10));
    assert(after[prev] == before[prev] - smooth_delta(d, 9));
    // the midpoint correction is exactly half the step
    assert(smooth_delta(d, 10) == a) by {
        assert(tdiv(a * 65536, 65536) == a) by {
            if a >= 0 {
                vstd::arithmetic::div_mod::lemma_div_by_multiple(a, 65536);
            } else {
                vstd::arithmetic::div_mod::lemma_div_by_multiple(-a, 65536);
                assert((-a) * 65536 == -(a * 65536)) by (nonlinear_arith);
            }
        }
    }
    let u = smooth_delta(d, 9);
    let gap = after[index] - after[prev];
    assert(gap == d - a - (-u) - u + u) by {
        assert(gap == (before[index] - a) - (before[prev] - u));
    }
    assert(gap == d - a + u);
    if d >= 2 {
        lemma_gap_shrinks_pos(d, a, u);
    } else {
        // mirror case: the correction formulas are odd in d
        lemma_gap_shrinks_neg(d, a, u);
    }
}

/// For a positive step `d >= 2`, the new gap `d - a + u` is strictly
/// between zero and `d`.
proof fn lemma_gap_shrinks_pos(d: int, a: int, u: int)
    requires
        d >= 2,
        a == tdiv(d, 2),
        u == smooth_delta(d, 9),
    ensures
        0 <= d - a + u < d,
{
    assert(1 <= a <= d / 2);
    assert(u == -((a * 55284) / 65536)) by {
        assert(a * (-55284) == -(a * 55284)) by (nonlinear_arith);
        assert(a * 55284 >= 0) by (nonlinear_arith)
            requires
                a >= 0,
        ;
    }
    let m = (a * 55284) / 65536;
    assert(0 <= m <= a - 1) by {
        vstd::arithmetic::div_mod::lemma_div_pos_is_pos(a * 55284, 65536);
        assert(a * 55284 < 65536 * a) by (nonlinear_arith)
            requires
                a >= 1,
        ;
        vstd::arithmetic::div_mod::lemma_multiply_divide_lt(a * 55284, 65536, a);
    }
    assert(2 * a <= d) by {
        vstd::arithmetic::div_mod::lemma_fundamental_div_mod(d, 2);
        vstd::arithmetic::div_mod::lemma_mod_bound(d, 2);
    }
}

/// For a negative step `d <= -2`, the new gap is strictly between `d` and
/// zero.
proof fn lemma_gap_shrinks_neg(d: int, a: int, u: int)
    requires
        d <= -2,
        a == tdiv(d, 2),
        u == smooth_delta(d, 9),
    ensures
        d < d - a + u <= 0,
{
    let am = -a;
    assert(a == -((-d) / 2));
    assert(1 <= am <= (-d) / 2);
    assert(u == (am * 55284) / 65536) by {
        assert(a * (-55284) == am * 55284) by (nonlinear_arith)
            requires
                am == -a,
        ;
        assert(am * 55284 >= 0) by (nonlinear_arith)
            requires
                am >= 0,
        ;
    }
    assert(0 <= u <= am - 1) by {
        vstd::arithmetic::div_mod::lemma_div_pos_is_pos(am * 55284, 65536);
        assert(am * 55284 < 65536 * am) by (nonlinear_arith)
            requires
                am >= 1,
        ;
        vstd::arithmetic::div_mod::lemma_multiply_divide_lt(am * 55284, 65536, am);
    }
    assert(2 * am <= -d) by {
        vstd::arithmetic::div_mod::lemma_fundamental_div_mod(-d, 2);
        vstd::arithmetic::div_mod::lemma_mod_bound(-d, 2);
    }
}

} // verus!
