//! Fixed-point circular functions computed by CORDIC iterations.
//!
//! Angles are integers: pico-radians (`1e-12 rad`) at the public interface,
//! femto-radians (`1e-15 rad`) inside the iterations. Sines and cosines are
//! integers at scale `1e18`. Every executable function is pinned exactly to
//! a spec-level mirror of the same iteration, so callers reason about a
//! deterministic mathematical function.
use vstd::prelude::*;
use crate::fixed::tdiv;
use crate::fixed::rdiv;
use crate::fixed::spec_clamp;
use crate::fixed::tdiv_i128;
use crate::fixed::rdiv_i128;
use crate::fixed::lemma_rdiv_abs_le;
use vstd::arithmetic::power2::pow2;

verus! {

/// The half circle, in pico-radians (rounded).
pub const PI_PICO: i64 = 3_141_592_653_590;

/// The quarter circle, in pico-radians (rounded).
pub const HALF_PI_PICO: i64 = 1_570_796_326_795;

/// The half circle, in femto-radians (rounded).
pub const PI_FEMTO: i64 = 3_141_592_653_589_793;

/// The quarter circle, in femto-radians (rounded).
pub const HALF_PI_FEMTO: i64 = 1_570_796_326_794_897;

/// The fixed-point scale of sine and cosine values: this value stands for 1.
pub const SCALE_E18: i64 = 1_000_000_000_000_000_000;

/// The reciprocal 1/K of the CORDIC gain, at scale `1e18`.
pub const INV_GAIN_E18: i64 = 607_252_935_008_881_256;

/// Inputs to the angle iteration are first halved into this box.
pub const NORM_LIM: i128 = 100_000_000_000_000_000;

/// Number of CORDIC iterations; the last table entry is 1 femto-radian.
pub const CORDIC_ITERS: usize = 51;

/// The largest rotation table entry, `arctan(1)` in femto-radians.
pub const ATAN_MAX_FEMTO: i64 = 785_398_163_397_448;

/// `arctan(2^-k)` in femto-radians, rounded to nearest.
#[verifier::opaque]
pub open spec fn atan_femto(k: int) -> int {
    if k == 0 {
        785398163397448
    } else if k == 1 {
        463647609000806
    } else if k == 2 {
        244978663126864
    } else if k == 3 {
        124354994546761
    } else if k == 4 {
        62418809995957
    } else if k == 5 {
        31239833430268
    } else if k == 6 {
        15623728620477
    } else if k == 7 {
        7812341060101
    } else if k == 8 {
        3906230131967
    } else if k == 9 {
        1953122516479
    } else if k == 10 {
        976562189559
    } else if k == 11 {
        488281211195
    } else if k == 12 {
        244140620149
    } else if k == 13 {
        122070311894
    } else if k == 14 {
        61035156174
    } else if k == 15 {
        30517578116
    } else if k == 16 {
        15258789061
    } else if k == 17 {
        7629394531
    } else if k == 18 {
        3814697266
    } else if k == 19 {
        1907348633
    } else if k == 20 {
        953674316
    } else if k == 21 {
        476837158
    } else if k == 22 {
        238418579
    } else if k == 23 {
        119209290
    } else if k == 24 {
        59604645
    } else if k == 25 {
        29802322
    } else if k == 26 {
        14901161
    } else if k == 27 {
        7450581
    } else if k == 28 {
        3725290
    } else if k == 29 {
        1862645
    } else if k == 30 {
        931323
    } else if k == 31 {
        465661
    } else if k == 32 {
        232831
    } else if k == 33 {
        116415
    } else if k == 34 {
        58208
    } else if k == 35 {
        29104
    } else if k == 36 {
        14552
    } else if k == 37 {
        7276
    } else if k == 38 {
        3638
    } else if k == 39 {
        1819
    } else if k == 40 {
        909
    } else if k == 41 {
        455
    } else if k == 42 {
        227
    } else if k == 43 {
        114
    } else if k == 44 {
        57
    } else if k == 45 {
        28
    } else if k == 46 {
        14
    } else if k == 47 {
        7
    } else if k == 48 {
        4
    } else if k == 49 {
        2
    } else if k == 50 {
        1
    } else {
        0
    }
}

/// Executable rotation table, one entry per iteration.
fn atan_entry(k: usize) -> (r: i64)
    requires
        k < CORDIC_ITERS,
    ensures
        r == atan_femto(k as int),
        0 < r <= ATAN_MAX_FEMTO,
{
    proof {
        reveal(atan_femto);
    }
    if k == 0 {
        785398163397448
    } else if k == 1 {
        463647609000806
    } else if k == 2 {
        244978663126864
    } else if k == 3 {
        124354994546761
    } else if k == 4 {
        62418809995957
    } else if k == 5 {
        31239833430268
    } else if k == 6 {
        15623728620477
    } else if k == 7 {
        7812341060101
    } else if k == 8 {
        3906230131967
    } else if k == 9 {
        1953122516479
    } else if k == 10 {
        976562189559
    } else if k == 11 {
        488281211195
    } else if k == 12 {
        244140620149
    } else if k == 13 {
        122070311894
    } else if k == 14 {
        61035156174
    } else if k == 15 {
        30517578116
    } else if k == 16 {
        15258789061
    } else if k == 17 {
        7629394531
    } else if k == 18 {
        3814697266
    } else if k == 19 {
        1907348633
    } else if k == 20 {
        953674316
    } else if k == 21 {
        476837158
    } else if k == 22 {
        238418579
    } else if k == 23 {
        119209290
    } else if k == 24 {
        59604645
    } else if k == 25 {
        29802322
    } else if k == 26 {
        14901161
    } else if k == 27 {
        7450581
    } else if k == 28 {
        3725290
    } else if k == 29 {
        1862645
    } else if k == 30 {
        931323
    } else if k == 31 {
        465661
    } else if k == 32 {
        232831
    } else if k == 33 {
        116415
    } else if k == 34 {
        58208
    } else if k == 35 {
        29104
    } else if k == 36 {
        14552
    } else if k == 37 {
        7276
    } else if k == 38 {
        3638
    } else if k == 39 {
        1819
    } else if k == 40 {
        909
    } else if k == 41 {
        455
    } else if k == 42 {
        227
    } else if k == 43 {
        114
    } else if k == 44 {
        57
    } else if k == 45 {
        28
    } else if k == 46 {
        14
    } else if k == 47 {
        7
    } else if k == 48 {
        4
    } else if k == 49 {
        2
    } else {
        1
    }
}

/// One vectoring step: rotate toward the positive x axis and record the
/// rotation applied so far (femto-radians).
pub open spec fn vec_step(x: int, y: int, z: int, k: int) -> (int, int, int) {
    let p = pow2(k as nat) as int;
    if y > 0 {
        (x + tdiv(y, p), y - tdiv(x, p), z + atan_femto(k))
    } else {
        (x - tdiv(y, p), y + tdiv(x, p), z - atan_femto(k))
    }
}

/// The vectoring iteration after `k` steps, started at `(x0, y0)`.
pub open spec fn vec_iter(x0: int, y0: int, k: int) -> (int, int, int)
    decreases k,
{
    if k <= 0 {
        (x0, y0, 0)
    } else {
        let s = vec_iter(x0, y0, k - 1);
        vec_step(s.0, s.1, s.2, k - 1)
    }
}

/// One rotation step: drive the residual angle `z` to zero.
pub open spec fn rot_step(x: int, y: int, z: int, k: int) -> (int, int, int) {
    let p = pow2(k as nat) as int;
    if z >= 0 {
        (x - tdiv(y, p), y + tdiv(x, p), z - atan_femto(k))
    } else {
        (x + tdiv(y, p), y - tdiv(x, p), z + atan_femto(k))
    }
}

/// The rotation iteration after `k` steps, started on the x axis with the
/// inverse gain so the final radius is 1 at scale `1e18`.
pub open spec fn rot_iter(z0: int, k: int) -> (int, int, int)
    decreases k,
{
    if k <= 0 {
        (INV_GAIN_E18 as int, 0, z0)
    } else {
        let s = rot_iter(z0, k - 1);
        rot_step(s.0, s.1, s.2, k - 1)
    }
}

fn cordic_vectoring(x0: i128, y0: i128) -> (z: i128)
    requires
        1 <= x0 <= NORM_LIM,
        -NORM_LIM <= y0 <= NORM_LIM,
    ensures
        z == vec_iter(x0 as int, y0 as int, CORDIC_ITERS as int).2,
        vstd::math::abs(z as int) <= CORDIC_ITERS * ATAN_MAX_FEMTO,
{
    let mut x: i128 = x0;
    let mut y: i128 = y0;
    let mut z: i128 = 0;
    let mut k: usize = 0;
    let mut d: i128 = 1;
    proof {
        vstd::arithmetic::power2::lemma2_to64();
        vstd::arithmetic::power2::lemma2_to64_rest();
    }
    while k < CORDIC_ITERS
        invariant
            k <= CORDIC_ITERS,
            d == pow2(k as nat),
            1 <= d <= 0x8_0000_0000_0000,
            (x as int, y as int, z as int) == vec_iter(x0 as int, y0 as int, k as int),
            vstd::math::abs(x as int) + vstd::math::abs(y as int)
                <= (vstd::math::abs(x0 as int) + vstd::math::abs(y0 as int)) * pow2(k as nat),
            vstd::math::abs(x0 as int) + vstd::math::abs(y0 as int) <= 2 * NORM_LIM,
            vstd::math::abs(z as int) <= k * ATAN_MAX_FEMTO,
        decreases CORDIC_ITERS - k,
    {
        let ghost s0: nat = vstd::math::abs(x0 as int) + vstd::math::abs(y0 as int);
        proof {
            vstd::arithmetic::power2::lemma2_to64();
            vstd::arithmetic::power2::lemma2_to64_rest();
            if (k as nat) < 51 {
                vstd::arithmetic::power2::lemma_pow2_strictly_increases(k as nat, 51);
            }
            assert(s0 * pow2(k as nat) <= 2 * NORM_LIM * 2251799813685248) by (nonlinear_arith)
                requires
                    0 <= s0 <= 2 * NORM_LIM,
                    0 < pow2(k as nat) <= 2251799813685248,
            ;
            assert(vstd::math::abs(z as int) <= 51 * ATAN_MAX_FEMTO) by (nonlinear_arith)
                requires
                    vstd::math::abs(z as int) <= k * ATAN_MAX_FEMTO,
                    k <= 51,
            ;
        }
        let e = atan_entry(k);
        let sx = tdiv_i128(x, d);
        let sy = tdiv_i128(y, d);
        let nx: i128;
        let ny: i128;
        let nz: i128;
        if y > 0 {
            nx = x + sy;
            ny = y - sx;
            nz = z + e as i128;
        } else {
            nx = x - sy;
            ny = y + sx;
            nz = z - e as i128;
        }
        proof {
            assert((nx as int, ny as int, nz as int) == vec_step(x as int, y as int, z as int, k as int));
            assert(vec_iter(x0 as int, y0 as int, (k + 1) as int)
                == vec_step(x as int, y as int, z as int, k as int));
            vstd::arithmetic::power2::lemma_pow2_unfold((k + 1) as nat);
            assert(s0 * pow2((k + 1) as nat) == 2 * (s0 * pow2(k as nat))) by (nonlinear_arith)
                requires
                    pow2((k + 1) as nat) == 2 * pow2(k as nat),
            ;
            assert(vstd::math::abs(nz as int) <= (k + 1) * ATAN_MAX_FEMTO) by (nonlinear_arith)
                requires
                    vstd::math::abs(nz as int) <= k * ATAN_MAX_FEMTO + ATAN_MAX_FEMTO,
            ;
        }
        x = nx;
        y = ny;
        z = nz;
        k = k + 1;
        d = 2 * d;
    }
    z
}

#[verifier::rlimit(100)]
fn cordic_rotation(z0: i128) -> (r: (i128, i128))
    requires
        -HALF_PI_FEMTO - 1000 <= z0 <= HALF_PI_FEMTO + 1000,
    ensures
        r.0 == rot_iter(z0 as int, CORDIC_ITERS as int).0,
        r.1 == rot_iter(z0 as int, CORDIC_ITERS as int).1,
{
    let mut x: i128 = INV_GAIN_E18 as i128;
    let mut y: i128 = 0;
    let mut z: i128 = z0;
    let mut k: usize = 0;
    let mut d: i128 = 1;
    proof {
        vstd::arithmetic::power2::lemma2_to64();
        vstd::arithmetic::power2::lemma2_to64_rest();
    }
    while k < CORDIC_ITERS
        invariant
            k <= CORDIC_ITERS,
            d == pow2(k as nat),
            1 <= d <= 0x8_0000_0000_0000,
            x as int == rot_iter(z0 as int, k as int).0,
            y as int == rot_iter(z0 as int, k as int).1,
            z as int == rot_iter(z0 as int, k as int).2,
            vstd::math::abs(x as int) + vstd::math::abs(y as int)
                <= (INV_GAIN_E18 as int) * pow2(k as nat),
            vstd::math::abs(z as int) <= HALF_PI_FEMTO + 1000 + k * ATAN_MAX_FEMTO,
        decreases CORDIC_ITERS - k,
    {
        proof {
            vstd::arithmetic::power2::lemma2_to64();
            vstd::arithmetic::power2::lemma2_to64_rest();
            if (k as nat) < 51 {
                vstd::arithmetic::power2::lemma_pow2_strictly_increases(k as nat, 51);
            }
            assert((INV_GAIN_E18 as int) * pow2(k as nat)
                <= (INV_GAIN_E18 as int) * 2251799813685248) by (nonlinear_arith)
                requires
                    0 < pow2(k as nat) <= 2251799813685248,
            ;
            assert(vstd::math::abs(z as int) <= HALF_PI_FEMTO + 1000 + 51 * ATAN_MAX_FEMTO)
                by (nonlinear_arith)
                requires
                    vstd::math::abs(z as int) <= HALF_PI_FEMTO + 1000 + k * ATAN_MAX_FEMTO,
                    k <= 51,
            ;
        }
        let e = atan_entry(k);
        let sx = tdiv_i128(x, d);
        let sy = tdiv_i128(y, d);
        let nx: i128;
        let ny: i128;
        let nz: i128;
        if z >= 0 {
            nx = x - sy;
            ny = y + sx;
            nz = z - e as i128;
        } else {
            nx = x + sy;
            ny = y - sx;
            nz = z + e as i128;
        }
        proof {
            assert((nx as int, ny as int, nz as int) == rot_step(x as int, y as int, z as int, k as int));
            assert(rot_iter(z0 as int, (k + 1) as int)
                == rot_step(x as int, y as int, z as int, k as int));
            vstd::arithmetic::power2::lemma_pow2_unfold((k + 1) as nat);
            assert((INV_GAIN_E18 as int) * pow2((k + 1) as nat)
                == 2 * ((INV_GAIN_E18 as int) * pow2(k as nat))) by (nonlinear_arith)
                requires
                    pow2((k + 1) as nat) == 2 * pow2(k as nat),
            ;
            assert(vstd::math::abs(nz as int) <= HALF_PI_FEMTO + 1000 + (k + 1) * ATAN_MAX_FEMTO)
                by (nonlinear_arith)
                requires
                    vstd::math::abs(nz as int)
                        <= HALF_PI_FEMTO + 1000 + k * ATAN_MAX_FEMTO + ATAN_MAX_FEMTO,
            ;
        }
        x = nx;
        y = ny;
        z = nz;
        k = k + 1;
        d = 2 * d;
    }
    (x, y)
}

/// Halve both components until they fit the iteration box; preserves the
/// ratio up to truncation, hence the angle.
pub open spec fn spec_norm(x: int, y: int) -> (int, int)
    decreases vstd::math::abs(x) + vstd::math::abs(y),
    via spec_norm_decreases
{
    if -NORM_LIM <= x <= NORM_LIM && -NORM_LIM <= y <= NORM_LIM {
        (x, y)
    } else {
        spec_norm(tdiv(x, 2), tdiv(y, 2))
    }
}

#[via_fn]
proof fn spec_norm_decreases(x: int, y: int) {
    if !(-NORM_LIM <= x <= NORM_LIM && -NORM_LIM <= y <= NORM_LIM) {
        lemma_tdiv_half_abs(x);
        lemma_tdiv_half_abs(y);
    }
}

/// Truncated halving shrinks the magnitude, strictly so away from zero.
proof fn lemma_tdiv_half_abs(v: int)
    ensures
        vstd::math::abs(tdiv(v, 2)) <= vstd::math::abs(v),
        vstd::math::abs(v) >= 1 ==> vstd::math::abs(tdiv(v, 2)) < vstd::math::abs(v),
        vstd::math::abs(tdiv(v, 2)) * 2 <= vstd::math::abs(v) + 1,
{
    let a = vstd::math::abs(v);
    vstd::arithmetic::div_mod::lemma_fundamental_div_mod(a as int, 2);
    vstd::arithmetic::div_mod::lemma_mod_bound(a as int, 2);
    vstd::arithmetic::div_mod::lemma_div_pos_is_pos(a as int, 2);
}

fn norm2(x: i128, y: i128) -> (r: (i128, i128))
    requires
        x > i128::MIN,
        y > i128::MIN,
    ensures
        (r.0 as int, r.1 as int) == spec_norm(x as int, y as int),
        -NORM_LIM <= r.0 <= NORM_LIM,
        -NORM_LIM <= r.1 <= NORM_LIM,
{
    let mut cx: i128 = x;
    let mut cy: i128 = y;
    while !(-NORM_LIM <= cx && cx <= NORM_LIM && -NORM_LIM <= cy && cy <= NORM_LIM)
        invariant
            cx > i128::MIN,
            cy > i128::MIN,
            spec_norm(cx as int, cy as int) == spec_norm(x as int, y as int),
            vstd::math::abs(cx as int) <= vstd::math::abs(x as int),
            vstd::math::abs(cy as int) <= vstd::math::abs(y as int),
        decreases vstd::math::abs(cx as int) + vstd::math::abs(cy as int),
    {
        proof {
            lemma_tdiv_half_abs(cx as int);
            lemma_tdiv_half_abs(cy as int);
        }
        let nx = tdiv_i128(cx, 2);
        let ny = tdiv_i128(cy, 2);
        cx = nx;
        cy = ny;
    }
    (cx, cy)
}

/// The vectoring angle for a point in the open right half plane, clamped to
/// the quarter circle and rounded to pico-radians.
pub open spec fn spec_atan2_core(y: int, x: int) -> int {
    rdiv(
        spec_clamp(vec_iter(x, y, CORDIC_ITERS as int).2, -HALF_PI_FEMTO as int, HALF_PI_FEMTO as int),
        1000,
    )
}

fn atan2_core(y: i128, x: i128) -> (r: i64)
    requires
        1 <= x <= NORM_LIM,
        -NORM_LIM <= y <= NORM_LIM,
    ensures
        r == spec_atan2_core(y as int, x as int),
        -HALF_PI_PICO <= r <= HALF_PI_PICO,
{
    let z = cordic_vectoring(x, y);
    let zc: i128 = if z < -HALF_PI_FEMTO as i128 {
        -HALF_PI_FEMTO as i128
    } else if z > HALF_PI_FEMTO as i128 {
        HALF_PI_FEMTO as i128
    } else {
        z
    };
    let r = rdiv_i128(zc, 1000);
    proof {
        lemma_rdiv_abs_le(zc as int, HALF_PI_FEMTO as int, 1000);
        assert(rdiv(HALF_PI_FEMTO as int, 1000) == HALF_PI_PICO);
    }
    r as i64
}

/// Fixed-point `atan2`, in pico-radians. The value is the spec mirror of
/// the CORDIC vectoring run on the (halved-into-range) input, with exact
/// results on the axes; it always lies in `[-PI_PICO, PI_PICO]`.
pub open spec fn spec_atan2_pico(y: int, x: int) -> int {
    if y == 0 {
        if x >= 0 {
            0
        } else {
            PI_PICO as int
        }
    } else if x == 0 {
        if y > 0 {
            HALF_PI_PICO as int
        } else {
            -HALF_PI_PICO as int
        }
    } else {
        let n = spec_norm(x, y);
        let xn = n.0;
        let yn = n.1;
        if yn == 0 {
            if xn >= 0 {
                0
            } else if y > 0 {
                PI_PICO as int
            } else {
                -PI_PICO as int
            }
        } else if xn == 0 {
            if yn > 0 {
                HALF_PI_PICO as int
            } else {
                -HALF_PI_PICO as int
            }
        } else if xn > 0 {
            spec_atan2_core(yn, xn)
        } else if yn > 0 {
            PI_PICO - spec_clamp(spec_atan2_core(yn, -xn), 0, HALF_PI_PICO as int)
        } else {
            -PI_PICO + spec_clamp(spec_atan2_core(-yn, -xn), 0, HALF_PI_PICO as int)
        }
    }
}

/// Executable fixed-point `atan2` over any pair of `i128` coordinates.
pub fn atan2_pico(y: i128, x: i128) -> (r: i64)
    requires
        x > i128::MIN,
        y > i128::MIN,
    ensures
        r == spec_atan2_pico(y as int, x as int),
        -PI_PICO <= r <= PI_PICO,
{
    if y == 0 {
        if x >= 0 {
            0
        } else {
            PI_PICO
        }
    } else if x == 0 {
        if y > 0 {
            HALF_PI_PICO
        } else {
            -HALF_PI_PICO
        }
    } else {
        let n = norm2(x, y);
        let xn = n.0;
        let yn = n.1;
        if yn == 0 {
            if xn >= 0 {
                0
            } else if y > 0 {
                PI_PICO
            } else {
                -PI_PICO
            }
        } else if xn > 0 {
            atan2_core(yn, xn)
        } else if xn == 0 {
            if yn > 0 {
                HALF_PI_PICO
            } else {
                -HALF_PI_PICO
            }
        } else if yn > 0 {
            let c = atan2_core(yn, -xn);
            let cc: i64 = if c < 0 {
                0
            } else {
                c
            };
            PI_PICO - cc
        } else {
            let c = atan2_core(-yn, -xn);
            let cc: i64 = if c < 0 {
                0
            } else {
                c
            };
            -PI_PICO + cc
        }
    }
}

/// Fixed-point sine and cosine at scale `1e18` of an angle in pico-radians:
/// exact at zero, folded into the quarter-circle range, then the spec mirror
/// of the CORDIC rotation, clamped into `[-1, 1]`.
pub open spec fn spec_sincos_e18(t: int) -> (int, int) {
    if t == 0 {
        (0, SCALE_E18 as int)
    } else {
        let tf = 1000 * t;
        if tf > HALF_PI_FEMTO {
            let s = rot_iter(PI_FEMTO - tf, CORDIC_ITERS as int);
            (
                spec_clamp(s.1, -SCALE_E18 as int, SCALE_E18 as int),
                -spec_clamp(s.0, -SCALE_E18 as int, SCALE_E18 as int),
            )
        } else if tf < -HALF_PI_FEMTO {
            let s = rot_iter(-PI_FEMTO - tf, CORDIC_ITERS as int);
            (
                spec_clamp(s.1, -SCALE_E18 as int, SCALE_E18 as int),
                -spec_clamp(s.0, -SCALE_E18 as int, SCALE_E18 as int),
            )
        } else {
            let s = rot_iter(tf, CORDIC_ITERS as int);
            (
                spec_clamp(s.1, -SCALE_E18 as int, SCALE_E18 as int),
                spec_clamp(s.0, -SCALE_E18 as int, SCALE_E18 as int),
            )
        }
    }
}

fn clamp_scale(v: i128) -> (r: i64)
    ensures
        r == spec_clamp(v as int, -SCALE_E18 as int, SCALE_E18 as int),
        -SCALE_E18 <= r <= SCALE_E18,
{
    if v < -SCALE_E18 as i128 {
        -SCALE_E18
    } else if v > SCALE_E18 as i128 {
        SCALE_E18
    } else {
        v as i64
    }
}

/// Executable fixed-point sine and cosine of a pico-radian angle.
pub fn sincos_e18(t: i64) -> (r: (i64, i64))
    requires
        -PI_PICO <= t <= PI_PICO,
    ensures
        (r.0 as int, r.1 as int) == spec_sincos_e18(t as int),
        -SCALE_E18 <= r.0 <= SCALE_E18,
        -SCALE_E18 <= r.1 <= SCALE_E18,
{
    if t == 0 {
        (0, SCALE_E18)
    } else {
        let tf: i128 = 1000 * t as i128;
        if tf > HALF_PI_FEMTO as i128 {
            let s = cordic_rotation(PI_FEMTO as i128 - tf);
            let sv = clamp_scale(s.1);
            let cv = clamp_scale(s.0);
            (sv, -cv)
        } else if tf < -HALF_PI_FEMTO as i128 {
            let s = cordic_rotation(-PI_FEMTO as i128 - tf);
            let sv = clamp_scale(s.1);
            let cv = clamp_scale(s.0);
            (sv, -cv)
        } else {
            let s = cordic_rotation(tf);
            let sv = clamp_scale(s.1);
            let cv = clamp_scale(s.0);
            (sv, cv)
        }
    }
}

} // verus!
