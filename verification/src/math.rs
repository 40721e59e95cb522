//! Integer arithmetic helpers with explicit rounding.
//!
//! Every division in the physics core rounds in a stated direction:
//! toward zero (`div_trunc`), toward negative infinity (`div_floor`), or to
//! the nearest integer with halves away from zero (`div_round`). The square
//! root is the floor square root. Each executable function is pinned to the
//! corresponding spec-level definition.

use vstd::prelude::*;

verus! {

/// Quotient of `n / d` rounded toward zero, for `d > 0`.
pub open spec fn tdiv(n: int, d: int) -> int {
    if n >= 0 {
        n / d
    } else {
        -((-n) / d)
    }
}

/// Quotient of `n / d` rounded toward negative infinity, for `d > 0`.
/// For positive divisors this is exactly Euclidean division.
pub open spec fn fdiv(n: int, d: int) -> int {
    n / d
}

/// Quotient of `n / d` rounded to the nearest integer, halves away from
/// zero, for any `d != 0`. This is the rounding a binary floating-point
/// `round()` applies to an exact quotient.
pub open spec fn rdiv(n: int, d: int) -> int {
    let nn = if n >= 0 { n } else { -n };
    let dd = if d >= 0 { d } else { -d };
    let mag = (nn + dd / 2) / dd;
    if (n >= 0) == (d >= 0) {
        mag
    } else {
        -mag
    }
}

/// `r` is the floor square root of `n`.
pub open spec fn is_sqrt(n: int, r: int) -> bool {
    0 <= r && r * r <= n < (r + 1) * (r + 1)
}

/// The floor square root as a total spec function.
pub open spec fn sqrt_floor(n: nat) -> nat
    decreases n,
{
    if n == 0 {
        0
    } else {
        let r = sqrt_floor((n - 1) as nat);
        if (r + 1) * (r + 1) <= n {
            r + 1
        } else {
            r
        }
    }
}

/// `sqrt_floor` really is the floor square root.
pub proof fn lemma_sqrt_floor_is_sqrt(n: nat)
    ensures
        is_sqrt(n as int, sqrt_floor(n) as int),
    decreases n,
{
    if n > 0 {
        lemma_sqrt_floor_is_sqrt((n - 1) as nat);
        let r = sqrt_floor((n - 1) as nat);
        if (r + 1) * (r + 1) <= n {
            assert((r + 1) * (r + 1) + (2 * r + 3) == (r + 2) * (r + 2)) by (nonlinear_arith);
        }
    }
}

/// Floor square roots are unique.
pub proof fn lemma_sqrt_unique(n: int, a: int, b: int)
    requires
        is_sqrt(n, a),
        is_sqrt(n, b),
    ensures
        a == b,
{
    if a < b {
        assert((a + 1) * (a + 1) <= b * b) by (nonlinear_arith)
            requires
                0 <= a < b,
        ;
    }
    if b < a {
        assert((b + 1) * (b + 1) <= a * a) by (nonlinear_arith)
            requires
                0 <= b < a,
        ;
    }
}

/// Division truncated toward zero, `d > 0`.
pub fn div_trunc(n: i64, d: i64) -> (r: i64)
    requires
        d > 0,
        n > i64::MIN,
    ensures
        r == tdiv(n as int, d as int),
{
    if n >= 0 {
        let q: u64 = (n as u64) / (d as u64);
        q as i64
    } else {
        let q: u64 = ((-n) as u64) / (d as u64);
        -(q as i64)
    }
}

/// Division rounded toward negative infinity, `d > 0`.
pub fn div_floor(n: i64, d: i64) -> (r: i64)
    requires
        d > 0,
        n >= i64::MIN + d,
    ensures
        r == fdiv(n as int, d as int),
{
    if n >= 0 {
        let q: u64 = (n as u64) / (d as u64);
        q as i64
    } else {
        // floor(n / d) == -ceil(-n / d)
        let m: u64 = (-n) as u64;
        let q: u64 = m / (d as u64);
        let s: u64 = m % (d as u64);
        proof {
            vstd::arithmetic::div_mod::lemma_fundamental_div_mod(m as int, d as int);
            vstd::arithmetic::div_mod::lemma_mod_bound(m as int, d as int);
            if s == 0 {
                // -m == (-q) * d exactly
                assert(n == (-(q as int)) * (d as int) + 0) by (nonlinear_arith)
                    requires
                        m as int == (d as int) * (q as int),
                        n == -(m as int),
                ;
                vstd::arithmetic::div_mod::lemma_fundamental_div_mod_converse(
                    n as int,
                    d as int,
                    -(q as int),
                    0,
                );
            } else {
                // -m == (-q - 1) * d + (d - s), with 0 < d - s < d
                assert(n == (-(q as int) - 1) * (d as int) + ((d as int) - (s as int)))
                    by (nonlinear_arith)
                    requires
                        m as int == (d as int) * (q as int) + (s as int),
                        n == -(m as int),
                ;
                vstd::arithmetic::div_mod::lemma_fundamental_div_mod_converse(
                    n as int,
                    d as int,
                    -(q as int) - 1,
                    (d as int) - (s as int),
                );
            }
        }
        if s == 0 {
            -(q as i64)
        } else {
            -(q as i64) - 1
        }
    }
}

/// Division rounded to nearest, halves away from zero, `d > 0`.
pub fn div_round(n: i64, d: i64) -> (r: i64)
    requires
        d > 0,
        i64::MIN + d < n < i64::MAX - d,
    ensures
        r == rdiv(n as int, d as int),
{
    if n >= 0 {
        let q: u64 = ((n as u64) + (d as u64) / 2) / (d as u64);
        q as i64
    } else {
        let q: u64 = (((-n) as u64) + (d as u64) / 2) / (d as u64);
        -(q as i64)
    }
}

/// Division of 128-bit values rounded to nearest, halves away from zero,
/// for any nonzero divisor.
pub fn div_round_i128(n: i128, d: i128) -> (r: i128)
    requires
        d != 0,
        -0x4000_0000_0000_0000_0000_0000_0000_0000 < n < 0x4000_0000_0000_0000_0000_0000_0000_0000,
        -0x4000_0000_0000_0000_0000_0000_0000_0000 < d < 0x4000_0000_0000_0000_0000_0000_0000_0000,
    ensures
        r == rdiv(n as int, d as int),
{
    let nn: u128 = if n >= 0 { n as u128 } else { (-n) as u128 };
    let dd: u128 = if d >= 0 { d as u128 } else { (-d) as u128 };
    let mag: u128 = (nn + dd / 2) / dd;
    proof {
        lemma_udiv_round_le(nn as int, dd as int);
    }
    if (n >= 0) == (d >= 0) {
        mag as i128
    } else {
        -(mag as i128)
    }
}

/// `(n + d / 2) / d <= n` for nonnegative `n` and positive `d`.
proof fn lemma_udiv_round_le(n: int, d: int)
    requires
        n >= 0,
        d > 0,
    ensures
        (n + d / 2) / d <= n,
{
    vstd::arithmetic::div_mod::lemma_mod_bound(d, 2);
    vstd::arithmetic::div_mod::lemma_fundamental_div_mod(d, 2);
    assert(n + d / 2 <= n * d + d - 1) by (nonlinear_arith)
        requires
            n >= 0,
            d > 0,
            2 * (d / 2) <= d,
    ;
    vstd::arithmetic::div_mod::lemma_div_is_ordered(n + d / 2, n * d + d - 1, d);
    vstd::arithmetic::div_mod::lemma_fundamental_div_mod_converse(n * d + d - 1, d, n, d - 1);
}

/// Truncating division of 128-bit values, `d > 0`.
pub fn div_trunc_i128(n: i128, d: i128) -> (r: i128)
    requires
        d > 0,
        n > i128::MIN,
    ensures
        r == tdiv(n as int, d as int),
{
    if n >= 0 {
        let q: u128 = (n as u128) / (d as u128);
        q as i128
    } else {
        let q: u128 = ((-n) as u128) / (d as u128);
        proof {
            assert(q <= (-n) as u128) by {
                vstd::arithmetic::div_mod::lemma_div_is_ordered_by_denominator(
                    (-n) as int,
                    1,
                    d as int,
                );
            }
        }
        -(q as i128)
    }
}

/// Floor square root of a 128-bit value below `2^84`.
pub fn isqrt(n: u128) -> (r: u64)
    requires
        n < 0x10_0000_0000_0000_0000_0000,
    ensures
        is_sqrt(n as int, r as int),
        r as nat == sqrt_floor(n as nat),
{
    let mut lo: u64 = 0;
    let mut hi: u64 = 0x400_0000_0000;  // 2^42; (2^42)^2 = 2^84 > n
    proof {
        assert(0x400_0000_0000int * 0x400_0000_0000int == 0x10_0000_0000_0000_0000_0000int)
            by (nonlinear_arith);
    }
    // invariant: lo^2 <= n < hi^2
    while lo + 1 < hi
        invariant
            lo < hi <= 0x400_0000_0000,
            (lo as int) * (lo as int) <= n,
            n < (hi as int) * (hi as int),
        decreases hi - lo,
    {
        let mid: u64 = lo + (hi - lo) / 2;
        proof {
            assert((mid as int) * (mid as int) < 0x10_0000_0000_0000_0000_0000int)
                by (nonlinear_arith)
                requires
                    mid < 0x400_0000_0000,
            ;
        }
        let sq: u128 = (mid as u128) * (mid as u128);
        if sq <= n {
            lo = mid;
        } else {
            hi = mid;
        }
    }
    proof {
        lemma_sqrt_floor_is_sqrt(n as nat);
        lemma_sqrt_unique(n as int, lo as int, sqrt_floor(n as nat) as int);
    }
    lo
}

/// `rdiv` lands within half a unit of the exact quotient:
/// `|rdiv(n, d) * d - n| <= |d| / 2` (with the odd-divisor half rounded up).
pub proof fn lemma_rdiv_error(n: int, d: int)
    requires
        d > 0,
    ensures
        2 * (rdiv(n, d) * d - n) <= d,
        2 * (n - rdiv(n, d) * d) <= d,
{
    let nn = if n >= 0 { n } else { -n };
    let q = (nn + d / 2) / d;
    vstd::arithmetic::div_mod::lemma_fundamental_div_mod(nn + d / 2, d);
    vstd::arithmetic::div_mod::lemma_mod_bound(nn + d / 2, d);
    let s = (nn + d / 2) % d;
    assert(q * d == nn + d / 2 - s);
    assert(d == 2 * (d / 2) + d % 2) by {
        vstd::arithmetic::div_mod::lemma_fundamental_div_mod(d, 2);
    }
    if n >= 0 {
        assert(rdiv(n, d) * d == q * d);
    } else {
        assert(rdiv(n, d) == -q);
        assert((-q) * d == -(q * d)) by (nonlinear_arith);
    }
}

/// A truncated quotient never exceeds its dividend in magnitude.
pub proof fn lemma_tdiv_bound(n: int, d: int)
    requires
        d >= 1,
    ensures
        n >= 0 ==> 0 <= tdiv(n, d) <= n,
        n < 0 ==> n <= tdiv(n, d) <= 0,
{
    if n >= 0 {
        vstd::arithmetic::div_mod::lemma_div_pos_is_pos(n, d);
        vstd::arithmetic::div_mod::lemma_div_nonincreasing(n, d);
    } else {
        vstd::arithmetic::div_mod::lemma_div_pos_is_pos(-n, d);
        vstd::arithmetic::div_mod::lemma_div_nonincreasing(-n, d);
    }
}

/// A truncated quotient is bounded by `q` whenever the dividend is
/// bounded by `q * d`.
pub proof fn lemma_tdiv_mag_le(n: int, d: int, q: int)
    requires
        d >= 1,
        q >= 0,
        -(q * d) <= n <= q * d,
    ensures
        -q <= tdiv(n, d) <= q,
{
    let m = if n >= 0 {
        n
    } else {
        -n
    };
    vstd::arithmetic::div_mod::lemma_div_pos_is_pos(m, d);
    vstd::arithmetic::div_mod::lemma_div_is_ordered(m, q * d, d);
    vstd::arithmetic::div_mod::lemma_div_by_multiple(q, d);
}

/// `|x * y| <= bx * by` whenever `|x| <= bx` and `|y| <= by`.
pub proof fn lemma_mul_abs_bound(x: int, y: int, bx: int, by: int)
    requires
        -bx <= x <= bx,
        -by <= y <= by,
    ensures
        -(bx * by) <= x * y <= bx * by,
{
    assert(-(bx * by) <= x * y <= bx * by) by (nonlinear_arith)
        requires
            -bx <= x <= bx,
            -by <= y <= by,
    ;
}

/// `rdiv` lands within half a unit of the exact quotient for any nonzero
/// divisor.
pub proof fn lemma_rdiv_error_any(n: int, d: int)
    requires
        d != 0,
    ensures
        2 * (rdiv(n, d) * d - n) <= if d > 0 {
            d
        } else {
            -d
        },
        2 * (n - rdiv(n, d) * d) <= if d > 0 {
            d
        } else {
            -d
        },
{
    if d > 0 {
        lemma_rdiv_error(n, d);
    } else {
        lemma_rdiv_error(n, -d);
        assert(rdiv(n, d) == -rdiv(n, -d));
        assert((-rdiv(n, -d)) * d == rdiv(n, -d) * (-d)) by (nonlinear_arith);
    }
}

/// `rdiv` by a positive divisor is monotone in the dividend.
pub proof fn lemma_rdiv_monotone(a: int, b: int, d: int)
    requires
        d > 0,
        a <= b,
    ensures
        rdiv(a, d) <= rdiv(b, d),
{
    lemma_rdiv_error(a, d);
    lemma_rdiv_error(b, d);
    let qa = rdiv(a, d);
    let qb = rdiv(b, d);
    if qa > qb {
        assert(qa * d >= qb * d + d) by (nonlinear_arith)
            requires
                qa >= qb + 1,
                d > 0,
        ;
        assert(2 * (qa * d) <= 2 * a + d);
        assert(2 * b + d <= 2 * (qb * d) + 2 * d);
    }
}

} // verus!
