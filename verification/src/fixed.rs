//! Fixed-point scalar arithmetic: truncating and rounding division helpers
//! and an exact integer square root, the primitives the geometry engine's
//! scaled-integer computations are built from.
use vstd::prelude::*;

verus! {

/// Truncating division (toward zero), the semantics of `/` on the machine
/// integers, stated over mathematical integers.
pub open spec fn tdiv(a: int, b: int) -> int
    recommends
        b > 0,
{
    if a >= 0 {
        a / b
    } else {
        -((-a) / b)
    }
}

/// Division rounded to the nearest integer, ties away from zero.
pub open spec fn rdiv(a: int, b: int) -> int
    recommends
        b > 0,
{
    if a >= 0 {
        (2 * a + b) / (2 * b)
    } else {
        -((2 * (-a) + b) / (2 * b))
    }
}

/// Clamp an integer into an inclusive interval.
pub open spec fn spec_clamp(a: int, lo: int, hi: int) -> int {
    if a < lo {
        lo
    } else if a > hi {
        hi
    } else {
        a
    }
}

/// Largest bound the division helpers accept; keeps every intermediate
/// product inside `i128`.
pub const DIV_ARG_BOUND: i128 = 40_000_000_000_000_000_000_000_000_000_000_000_000;

/// Truncating division on `i128`.
pub fn tdiv_i128(a: i128, b: i128) -> (r: i128)
    requires
        b > 0,
        a > i128::MIN,
    ensures
        r == tdiv(a as int, b as int),
        vstd::math::abs(r as int) <= vstd::math::abs(a as int),
{
    proof {
        let aa: int = if a >= 0 { a as int } else { -a as int };
        vstd::arithmetic::div_mod::lemma_div_nonincreasing(aa, b as int);
        vstd::arithmetic::div_mod::lemma_div_pos_is_pos(aa, b as int);
    }
    a / b
}

/// Rounding division on `i128`, ties away from zero.
pub fn rdiv_i128(a: i128, b: i128) -> (r: i128)
    requires
        0 < b <= DIV_ARG_BOUND,
        -DIV_ARG_BOUND <= a <= DIV_ARG_BOUND,
    ensures
        r == rdiv(a as int, b as int),
        vstd::math::abs(r as int) <= vstd::math::abs(a as int) + 1,
{
    let r: i128 = if a >= 0 {
        (2 * a + b) / (2 * b)
    } else {
        -((2 * (-a) + b) / (2 * b))
    };
    proof {
        let aa: int = if a >= 0 { a as int } else { -a as int };
        vstd::arithmetic::div_mod::lemma_div_pos_is_pos(2 * aa + b, 2 * (b as int));
        assert((2 * aa + b) / (2 * (b as int)) <= aa + 1) by (nonlinear_arith)
            requires
                b >= 1,
                aa >= 0,
        ;
    }
    r
}

/// The result of rounding division is within half a divisor of the true
/// quotient: `|rdiv(a, b) * b - a| <= b / 2`.
pub proof fn lemma_rdiv_err(a: int, b: int)
    requires
        b > 0,
    ensures
        2 * (rdiv(a, b) * b - a) <= b,
        -b <= 2 * (rdiv(a, b) * b - a),
{
    if a >= 0 {
        let q = (2 * a + b) / (2 * b);
        vstd::arithmetic::div_mod::lemma_fundamental_div_mod(2 * a + b, 2 * b);
        vstd::arithmetic::div_mod::lemma_mod_bound(2 * a + b, 2 * b);
        let m = (2 * a + b) % (2 * b);
        assert(2 * a + b == 2 * b * q + m);
        assert(2 * (q * b - a) == b - m) by (nonlinear_arith)
            requires
                2 * a + b == 2 * b * q + m,
        ;
    } else {
        let n = -a;
        let q = (2 * n + b) / (2 * b);
        vstd::arithmetic::div_mod::lemma_fundamental_div_mod(2 * n + b, 2 * b);
        vstd::arithmetic::div_mod::lemma_mod_bound(2 * n + b, 2 * b);
        let m = (2 * n + b) % (2 * b);
        assert(2 * (q * b - n) == b - m) by (nonlinear_arith)
            requires
                2 * n + b == 2 * b * q + m,
        ;
        assert(rdiv(a, b) == -q);
        assert(2 * ((-q) * b - a) == -(2 * (q * b - n))) by (nonlinear_arith)
            requires
                n == -a,
        ;
    }
}

/// Rounding division maps an interval symmetric about zero into the
/// correspondingly rounded interval.
pub proof fn lemma_rdiv_abs_le(a: int, m: int, b: int)
    requires
        b > 0,
        m >= 0,
        -m <= a <= m,
    ensures
        -rdiv(m, b) <= rdiv(a, b) <= rdiv(m, b),
{
    if a >= 0 {
        vstd::arithmetic::div_mod::lemma_div_is_ordered(2 * a + b, 2 * m + b, 2 * b);
        vstd::arithmetic::div_mod::lemma_div_pos_is_pos(2 * a + b, 2 * b);
        vstd::arithmetic::div_mod::lemma_div_pos_is_pos(2 * m + b, 2 * b);
    } else {
        vstd::arithmetic::div_mod::lemma_div_is_ordered(2 * (-a) + b, 2 * m + b, 2 * b);
        vstd::arithmetic::div_mod::lemma_div_pos_is_pos(2 * (-a) + b, 2 * b);
        vstd::arithmetic::div_mod::lemma_div_pos_is_pos(2 * m + b, 2 * b);
    }
}

/// An upper bound on a rounding division, from an upper bound on the
/// numerator: if `2 a + b <= 2 b c` then `rdiv(a, b) <= c`.
pub proof fn lemma_rdiv_upper(a: int, b: int, c: int)
    requires
        b > 0,
        a >= 0,
        2 * a + b <= 2 * b * c,
    ensures
        rdiv(a, b) <= c,
{
    vstd::arithmetic::div_mod::lemma_div_is_ordered(2 * a + b, 2 * b * c, 2 * b);
    vstd::arithmetic::div_mod::lemma_div_multiples_vanish(c, 2 * b);
    assert(2 * b * c == (2 * b) * c) by (nonlinear_arith);
}

/// A sharp upper bound on a rounding division: if `2 a + b < 2 b (c + 1)`
/// then `rdiv(a, b) <= c`.
pub proof fn lemma_rdiv_upper_strict(a: int, b: int, c: int)
    requires
        b > 0,
        a >= 0,
        2 * a + b < 2 * b * (c + 1),
    ensures
        rdiv(a, b) <= c,
{
    let q = (2 * a + b) / (2 * b);
    vstd::arithmetic::div_mod::lemma_fundamental_div_mod(2 * a + b, 2 * b);
    vstd::arithmetic::div_mod::lemma_mod_bound(2 * a + b, 2 * b);
    assert(q <= c) by (nonlinear_arith)
        requires
            b > 0,
            2 * a + b == 2 * b * q + (2 * a + b) % (2 * b),
            0 <= (2 * a + b) % (2 * b),
            2 * a + b < 2 * b * (c + 1),
    ;
}

/// The mathematical integer square root, by definition the unique `r` with
/// `r * r <= n < (r + 1) * (r + 1)`.
pub open spec fn spec_isqrt(n: nat) -> nat
    decreases n,
{
    if n == 0 {
        0
    } else {
        let p = spec_isqrt((n - 1) as nat);
        if (p + 1) * (p + 1) <= n {
            p + 1
        } else {
            p
        }
    }
}

pub proof fn lemma_isqrt_bounds(n: nat)
    ensures
        spec_isqrt(n) * spec_isqrt(n) <= n,
        n < (spec_isqrt(n) + 1) * (spec_isqrt(n) + 1),
    decreases n,
{
    reveal_with_fuel(spec_isqrt, 2);
    if n == 0 {
        assert(spec_isqrt(0) == 0) by {
            reveal_with_fuel(spec_isqrt, 3);
        };
        let s = spec_isqrt(n);
        assert(s == 0);
        assert(s * s <= n && n < (s + 1) * (s + 1)) by (nonlinear_arith)
            requires
                s == 0,
                n == 0,
        ;
    }
    if n > 0 {
        lemma_isqrt_bounds((n - 1) as nat);
        let p = spec_isqrt((n - 1) as nat);
        if (p + 1) * (p + 1) <= n {
            assert(spec_isqrt(n) == p + 1);
            assert(n < ((p + 1) + 1) * ((p + 1) + 1)) by (nonlinear_arith)
                requires
                    (n - 1) < (p + 1) * (p + 1),
            ;
        } else {
            assert(spec_isqrt(n) == p);
            assert(p * p <= n - 1);
        }
    }
}

pub proof fn lemma_isqrt_unique(n: nat, r: nat)
    requires
        r * r <= n,
        n < (r + 1) * (r + 1),
    ensures
        r == spec_isqrt(n),
{
    lemma_isqrt_bounds(n);
    let s = spec_isqrt(n);
    if r < s {
        assert((r + 1) * (r + 1) <= s * s) by (nonlinear_arith)
            requires
                r + 1 <= s,
        ;
    }
    if s < r {
        assert((s + 1) * (s + 1) <= r * r) by (nonlinear_arith)
            requires
                s + 1 <= r,
        ;
    }
}

/// Exact integer square root by bisection.
pub fn isqrt_u128(n: u128) -> (r: u128)
    ensures
        r == spec_isqrt(n as nat),
        r * r <= n,
{
    let mut lo: u128 = 0;
    let mut hi: u128 = 0x1_0000_0000_0000_0000;
    if n < hi {
        hi = n + 1;
    }
    proof {
        assert((n as int + 1) * (n as int + 1) > n) by (nonlinear_arith);
        assert(hi == 0x1_0000_0000_0000_0000 ==> (hi as int) * (hi as int) > n) by (nonlinear_arith)
            requires
                n <= u128::MAX,
        ;
    }
    while lo + 1 < hi
        invariant
            0 <= lo < hi,
            hi <= 0x1_0000_0000_0000_0000,
            (lo as int) * (lo as int) <= n as int,
            (hi as int) * (hi as int) > n as int,
        decreases hi - lo,
    {
        let mid: u128 = lo + (hi - lo) / 2;
        proof {
            assert(mid < hi);
            assert((mid as int) * (mid as int) < (0x1_0000_0000_0000_0000int) * (0x1_0000_0000_0000_0000int))
                by (nonlinear_arith)
                requires
                    0 <= mid < 0x1_0000_0000_0000_0000int,
            ;
        }
        if mid * mid <= n {
            lo = mid;
        } else {
            hi = mid;
        }
    }
    proof {
        lemma_isqrt_unique(n as nat, lo as nat);
    }
    lo
}

/// Saturate an `i128` into the `i64` range.
pub open spec fn spec_sat_i64(a: int) -> int {
    spec_clamp(a, i64::MIN as int, i64::MAX as int)
}

pub fn sat_i64(a: i128) -> (r: i64)
    ensures
        r == spec_sat_i64(a as int),
{
    if a < i64::MIN as i128 {
        i64::MIN
    } else if a > i64::MAX as i128 {
        i64::MAX
    } else {
        a as i64
    }
}

} // verus!
