//! Deterministic 1D value noise in fixed point.
//!
//! A table of pseudo-random samples in `[-1, 1]` (scaled by 65536) is
//! seeded from a fixed constant by a linear-congruential generator, so the
//! same seed and length reproduce the same terrain in every session.
//! Evaluation interpolates between adjacent table samples with the quintic
//! fade `6 t^5 - 15 t^4 + 10 t^3` and sums four octaves, each doubling the
//! frequency and halving the amplitude. Sample positions are rationals
//! `num / den`, so the whole evaluation is exact integer arithmetic.

use crate::math::{div_trunc, div_trunc_i128, lemma_mul_abs_bound, tdiv};
use vstd::prelude::*;

verus! {

/// Multiplier of the linear-congruential generator.
pub const LCG_MUL: u64 = 6364136223846793005;

/// Increment of the linear-congruential generator.
pub const LCG_ADD: u64 = 1442695040888963407;

/// Fixed-point scale of one: noise samples and fade factors live in
/// `[-NOISE_ONE, NOISE_ONE]`.
pub const NOISE_ONE: i64 = 65536;

/// One step of the linear-congruential generator:
/// `s * LCG_MUL + LCG_ADD`, wrapping modulo `2^64`.
pub open spec fn lcg_next(s: u64) -> u64 {
    s.wrapping_mul(LCG_MUL).wrapping_add(LCG_ADD)
}

/// The generator state after `i + 1` steps from `seed`.
pub open spec fn lcg_state(seed: u64, i: nat) -> u64
    decreases i,
{
    if i == 0 {
        lcg_next(seed)
    } else {
        lcg_next(lcg_state(seed, (i - 1) as nat))
    }
}

/// The `i`-th noise sample: the high generator bits folded into
/// `[-NOISE_ONE, NOISE_ONE]`.
pub open spec fn noise_sample(seed: u64, i: nat) -> int {
    (lcg_state(seed, i) as int / 0x2_0000_0000) % 131073 - 65536
}

/// Numerator of the quintic fade at the rational position `fr / den`,
/// over the denominator `den^5`.
pub open spec fn fade_num(fr: int, den: int) -> int {
    6 * fr * fr * fr * fr * fr - 15 * fr * fr * fr * fr * den + 10 * fr * fr * fr * den * den
}

/// The fade factor scaled by `NOISE_ONE`, floored, and clamped to the unit
/// weight from above (the unclamped quotient never exceeds the unit weight
/// for offsets inside the cell; the clamp states that bound locally).
pub open spec fn fade_scaled(fr: int, den: int) -> int {
    let raw = fade_num(fr, den) * 65536 / (den * den * den * den * den);
    if raw > 65536 {
        65536
    } else {
        raw
    }
}

/// Fade-interpolation between samples `a` (at offset `fr == 0`) and `b`
/// (at offset `fr == den`), rounded toward zero.
pub open spec fn interp_at(a: int, b: int, fr: int, den: int) -> int {
    a + tdiv((b - a) * fade_scaled(fr, den), 65536)
}

/// The fade numerator is nonnegative for offsets inside the cell.
pub proof fn lemma_fade_bounds(fr: int, den: int)
    requires
        0 <= fr < den,
    ensures
        0 <= fade_num(fr, den),
{
    let f5 = fade_num(fr, den);
    let quad = 6 * fr * fr - 15 * fr * den + 10 * den * den;
    assert(quad >= 0) by (nonlinear_arith)
        requires
            quad == 6 * fr * fr - 15 * fr * den + 10 * den * den,
    ;
    assert(f5 == fr * fr * fr * quad) by (nonlinear_arith)
        requires
            f5 == 6 * fr * fr * fr * fr * fr - 15 * fr * fr * fr * fr * den + 10 * fr * fr * fr
                * den * den,
            quad == 6 * fr * fr - 15 * fr * den + 10 * den * den,
    ;
    assert(f5 >= 0) by (nonlinear_arith)
        requires
            f5 == fr * fr * fr * quad,
            fr >= 0,
            quad >= 0,
    ;
}

/// The fade weight scaled by `NOISE_ONE` lies in `[0, NOISE_ONE]`.
pub proof fn lemma_fade_scaled_bounds(fr: int, den: int)
    requires
        0 <= fr < den,
    ensures
        0 <= fade_scaled(fr, den) <= 65536,
{
    lemma_fade_bounds(fr, den);
    let f5 = fade_num(fr, den);
    let d5 = den * den * den * den * den;
    assert(d5 >= 1) by (nonlinear_arith)
        requires
            d5 == den * den * den * den * den,
            den >= 1,
    ;
    vstd::arithmetic::div_mod::lemma_div_pos_is_pos(f5 * 65536, d5);
    assert(f5 * 65536 >= 0) by (nonlinear_arith)
        requires
            f5 >= 0,
    ;
}

/// The interpolated value lies between its two endpoint samples.
pub proof fn lemma_interp_between(a: int, b: int, fr: int, den: int)
    requires
        0 <= fr < den,
    ensures
        a <= b ==> a <= interp_at(a, b, fr, den) <= b,
        b <= a ==> b <= interp_at(a, b, fr, den) <= a,
{
    lemma_fade_scaled_bounds(fr, den);
    let fs = fade_scaled(fr, den);
    if a <= b {
        assert(0 <= (b - a) * fs) by (nonlinear_arith)
            requires
                b - a >= 0,
                fs >= 0,
        ;
        assert((b - a) * fs <= (b - a) * 65536) by (nonlinear_arith)
            requires
                b - a >= 0,
                fs <= 65536,
        ;
        vstd::arithmetic::div_mod::lemma_div_pos_is_pos((b - a) * fs, 65536);
        vstd::arithmetic::div_mod::lemma_div_is_ordered((b - a) * fs, (b - a) * 65536, 65536);
        vstd::arithmetic::div_mod::lemma_div_by_multiple(b - a, 65536);
    } else {
        assert(0 <= (a - b) * fs) by (nonlinear_arith)
            requires
                a - b >= 0,
                fs >= 0,
        ;
        assert((a - b) * fs <= (a - b) * 65536) by (nonlinear_arith)
            requires
                a - b >= 0,
                fs <= 65536,
        ;
        assert((b - a) * fs == -((a - b) * fs)) by (nonlinear_arith);
        vstd::arithmetic::div_mod::lemma_div_pos_is_pos((a - b) * fs, 65536);
        vstd::arithmetic::div_mod::lemma_div_is_ordered((a - b) * fs, (a - b) * 65536, 65536);
        vstd::arithmetic::div_mod::lemma_div_by_multiple(a - b, 65536);
    }
}

/// The whole table of `len` samples from `seed`, as a sequence.
pub open spec fn noise_table(seed: u64, len: nat) -> Seq<i64> {
    Seq::new(len, |j: int| noise_sample(seed, j as nat) as i64)
}

/// The noise table holds samples in `[-NOISE_ONE, NOISE_ONE]`.
pub open spec fn table_in_range(table: Seq<i64>) -> bool {
    forall|j: int| 0 <= j < table.len() ==> -65536 <= #[trigger] table[j] <= 65536
}

/// Interpolated table lookup at the rational position `num / den`, the
/// table treated as circular.
pub open spec fn noise_interp(table: Seq<i64>, num: int, den: int) -> int {
    let cell = num / den;
    let a = table[cell % table.len() as int];
    let b = table[(cell + 1) % table.len() as int];
    interp_at(a as int, b as int, num % den, den)
}

/// One octave's contribution: the interpolated sample at `o`-times-doubled
/// frequency, scaled by `ampl / 2^o`, rounded toward zero.
pub open spec fn octave_contrib(table: Seq<i64>, i: int, ampl: int, den: int, o: nat) -> int {
    let pw = if o == 0 {
        1int
    } else if o == 1 {
        2int
    } else if o == 2 {
        4int
    } else {
        8int
    };
    tdiv(noise_interp(table, i * pw, den) * ampl, 65536 * pw)
}

/// The four-octave noise value at index `i`, amplitude `ampl`, base
/// frequency `1 / den`.
pub open spec fn noise_value(table: Seq<i64>, i: int, ampl: int, den: int) -> int {
    octave_contrib(table, i, ampl, den, 0) + octave_contrib(table, i, ampl, den, 1)
        + octave_contrib(table, i, ampl, den, 2) + octave_contrib(table, i, ampl, den, 3)
}

/// The deterministic noise table.
pub struct PerlinNoise {
    pub noise: Vec<i64>,
}

impl PerlinNoise {
    /// A non-empty table of in-range samples.
    pub open spec fn wf(&self) -> bool {
        1 <= self.noise@.len() <= 0x1_0000_0000 && table_in_range(self.noise@)
    }

    /// Fill a table of `length` samples from `seed`.
    pub fn new(seed: u64, length: usize) -> (p: PerlinNoise)
        requires
            1 <= length <= 0x1_0000_0000,
        ensures
            p.wf(),
            p.noise@.len() == length,
            forall|j: int|
                0 <= j < length ==> #[trigger] p.noise@[j] == noise_sample(seed, j as nat),
            p.noise@ == noise_table(seed, length as nat),
    {
        let mut noise: Vec<i64> = Vec::new();
        let mut state: u64 = seed;
        let mut k: usize = 0;
        while k < length
            invariant
                k <= length,
                noise@.len() == k,
                k == 0 ==> state == seed,
                k > 0 ==> state == lcg_state(seed, (k - 1) as nat),
                forall|j: int| 0 <= j < k ==> #[trigger] noise@[j] == noise_sample(seed, j as nat),
                forall|j: int| 0 <= j < k ==> -65536 <= #[trigger] noise@[j] <= 65536,
            decreases length - k,
        {
            state = state.wrapping_mul(LCG_MUL).wrapping_add(LCG_ADD);
            proof {
                assert(state == lcg_state(seed, k as nat));
            }
            let high: u64 = state / 0x2_0000_0000;
            let folded: u64 = high % 131073;
            let v: i64 = (folded as i64) - 65536;
            proof {
                vstd::arithmetic::div_mod::lemma_mod_bound(high as int, 131073);
            }
            noise.push(v);
            k = k + 1;
        }
        proof {
            assert(noise@ =~= noise_table(seed, length as nat));
        }
        PerlinNoise { noise }
    }

    /// The interpolated sample at the rational position `num / den`.
    pub fn interpolate(&self, num: u64, den: u64) -> (r: i64)
        requires
            self.wf(),
            1 <= den <= 1000,
            num <= 0x10_0000_0000,
        ensures
            r == noise_interp(self.noise@, num as int, den as int),
            -65536 <= r <= 65536,
    {
        let cell: u64 = num / den;
        let fr: u64 = num % den;
        let len: u64 = self.noise.len() as u64;
        let idx_a: usize = (cell % len) as usize;
        let idx_b: usize = ((cell + 1) % len) as usize;
        proof {
            vstd::arithmetic::div_mod::lemma_mod_bound(cell as int, len as int);
            vstd::arithmetic::div_mod::lemma_mod_bound(cell as int + 1, len as int);
            vstd::arithmetic::div_mod::lemma_mod_bound(num as int, den as int);
        }
        let a: i64 = self.noise[idx_a];
        let b: i64 = self.noise[idx_b];
        // fade weight, scaled by NOISE_ONE: fade_num(fr, den) * 65536 / den^5
        let fi: i64 = fr as i64;
        let di: i64 = den as i64;
        proof {
            assert(0 <= fi * fi <= 1_000_000) by (nonlinear_arith)
                requires
                    0 <= fi < 1000,
            ;
        }
        let f2: i64 = fi * fi;
        proof {
            assert(0 <= f2 * fi <= 1_000_000_000) by (nonlinear_arith)
                requires
                    0 <= f2 <= 1_000_000,
                    0 <= fi < 1000,
            ;
        }
        let f3: i64 = f2 * fi;
        proof {
            assert(0 <= f3 * f2 <= 1_000_000_000_000_000) by (nonlinear_arith)
                requires
                    0 <= f3 <= 1_000_000_000,
                    0 <= f2 <= 1_000_000,
            ;
            assert(0 <= f3 * fi * di <= 1_000_000_000_000_000 && 0 <= f3 * fi <= 1_000_000_000_000)
                by (nonlinear_arith)
                requires
                    0 <= f3 <= 1_000_000_000,
                    0 <= fi < 1000,
                    0 < di <= 1000,
            ;
            assert(0 <= f3 * di * di <= 1_000_000_000_000_000 && 0 <= f3 * di
                <= 1_000_000_000_000) by (nonlinear_arith)
                requires
                    0 <= f3 <= 1_000_000_000,
                    0 < di <= 1000,
            ;
        }
        let t1: i64 = f3 * f2;
        let t2: i64 = (f3 * fi) * di;
        let t3: i64 = (f3 * di) * di;
        let num5: i64 = 6 * t1 - 15 * t2 + 10 * t3;
        proof {
            assert(num5 == fade_num(fi as int, di as int)) by (nonlinear_arith)
                requires
                    f2 == fi * fi,
                    f3 == f2 * fi,
                    t1 == f3 * f2,
                    t2 == (f3 * fi) * di,
                    t3 == (f3 * di) * di,
                    num5 == 6 * t1 - 15 * t2 + 10 * t3,
                    fade_num(fi as int, di as int) == 6 * fi * fi * fi * fi * fi - 15 * fi * fi
                        * fi * fi * di + 10 * fi * fi * fi * di * di,
            ;
            lemma_fade_bounds(fi as int, di as int);
            assert(0 <= di * di <= 1_000_000) by (nonlinear_arith)
                requires
                    0 < di <= 1000,
            ;
        }
        let d2: i64 = di * di;
        proof {
            assert(0 <= d2 * d2 <= 1_000_000_000_000) by (nonlinear_arith)
                requires
                    0 <= d2 <= 1_000_000,
            ;
            assert(0 < d2 * d2 * di <= 1_000_000_000_000_000) by (nonlinear_arith)
                requires
                    0 <= d2 * d2 <= 1_000_000_000_000,
                    0 < di <= 1000,
                    d2 == di * di,
            ;
            assert(d2 * d2 * di == di * di * di * di * di) by (nonlinear_arith)
                requires
                    d2 == di * di,
            ;
        }
        let d5: i64 = d2 * d2 * di;
        proof {
            assert(num5 >= 0);
            assert(0 <= (num5 as i128) * 65536 < 0x8000_0000_0000_0000_0000_0000)
                by (nonlinear_arith)
                requires
                    0 <= num5 <= 31_000_000_000_000_000,
            ;
        }
        let raw: i128 = div_trunc_i128((num5 as i128) * 65536, d5 as i128);
        proof {
            vstd::arithmetic::div_mod::lemma_div_pos_is_pos((num5 as int) * 65536, d5 as int);
            assert(raw == (num5 as int) * 65536 / (d5 as int));
        }
        let fs: i64 = if raw > 65536 {
            65536
        } else {
            raw as i64
        };
        proof {
            assert(fs == fade_scaled(fi as int, di as int));
            lemma_fade_scaled_bounds(fi as int, di as int);
            lemma_mul_abs_bound((b - a) as int, fs as int, 131072, 65536);
        }
        let t: i64 = div_trunc((b - a) * fs, 65536);
        proof {
            lemma_interp_between(a as int, b as int, fr as int, den as int);
        }
        a + t
    }

    /// The four-octave noise value at index `i` with amplitude `ampl`
    /// (fixed-point height units) and base frequency `1 / den`.
    pub fn get(&self, i: u64, ampl: i64, den: u64) -> (r: i64)
        requires
            self.wf(),
            1 <= den <= 1000,
            i <= 0x2_0000_0000,
            -1_000_000 <= ampl <= 1_000_000,
        ensures
            r == noise_value(self.noise@, i as int, ampl as int, den as int),
            -2_000_000 <= r <= 2_000_000,
    {
        let c0: i64 = self.octave(i, ampl, den, 1);
        let c1: i64 = self.octave(i, ampl, den, 2);
        let c2: i64 = self.octave(i, ampl, den, 4);
        let c3: i64 = self.octave(i, ampl, den, 8);
        proof {
            assert(c0 == octave_contrib(self.noise@, i as int, ampl as int, den as int, 0));
            assert(c1 == octave_contrib(self.noise@, i as int, ampl as int, den as int, 1));
            assert(c2 == octave_contrib(self.noise@, i as int, ampl as int, den as int, 2));
            assert(c3 == octave_contrib(self.noise@, i as int, ampl as int, den as int, 3));
        }
        c0 + c1 + c2 + c3
    }

    /// One octave: the interpolated sample at `pw`-times frequency, scaled
    /// by `ampl / pw`.
    fn octave(&self, i: u64, ampl: i64, den: u64, pw: u64) -> (r: i64)
        requires
            self.wf(),
            1 <= den <= 1000,
            i <= 0x2_0000_0000,
            pw == 1 || pw == 2 || pw == 4 || pw == 8,
            -1_000_000 <= ampl <= 1_000_000,
        ensures
            r == tdiv(noise_interp(self.noise@, i as int * pw, den as int) * ampl, 65536 * pw),
            pw * r <= 1_000_000 && -1_000_000 <= pw * r,
    {
        let s: i64 = self.interpolate(i * pw, den);
        proof {
            lemma_mul_abs_bound(s as int, ampl as int, 65536, 1_000_000);
        }
        let r: i64 = div_trunc(s * ampl, 65536 * (pw as i64));
        proof {
            lemma_octave_bound(s as int * ampl as int, pw as int, r as int);
        }
        r
    }
}

/// A quotient of a value within `NOISE_ONE * 1_000_000` by `NOISE_ONE * pw`,
/// truncated toward zero and scaled back by `pw`, stays within the
/// amplitude bound.
proof fn lemma_octave_bound(n: int, pw: int, r: int)
    requires
        -65536 * 1_000_000 <= n <= 65536 * 1_000_000,
        pw >= 1,
        r == tdiv(n, 65536 * pw),
    ensures
        -1_000_000 <= pw * r <= 1_000_000,
{
    let m = if n >= 0 {
        n
    } else {
        -n
    };
    let q = m / (65536 * pw);
    assert(q >= 0) by {
        vstd::arithmetic::div_mod::lemma_div_pos_is_pos(m, 65536 * pw);
    }
    assert(pw * q <= 1_000_000) by (nonlinear_arith)
        requires
            q == m / (65536 * pw),
            0 <= m <= 65536 * 1_000_000,
            pw >= 1,
    ;
    if n >= 0 {
        assert(pw * r == pw * q);
        assert(pw * q >= 0) by (nonlinear_arith)
            requires
                q >= 0,
                pw >= 1,
        ;
    } else {
        assert(pw * r == -(pw * q)) by (nonlinear_arith)
            requires
                r == -q,
        ;
        assert(pw * q >= 0) by (nonlinear_arith)
            requires
                q >= 0,
                pw >= 1,
        ;
    }
}

} // verus!
