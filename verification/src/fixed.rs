//! Fixed-point arithmetic at a scale of one million.
//!
//! A value `v` stands for the real number `v / 1_000_000`. The module offers
//! truncated-series approximations of the exponential and the natural
//! logarithm on the ranges that the atmosphere equations need, each with a
//! specification function that states its result exactly.

use vstd::prelude::*;
use vstd::arithmetic::div_mod::{
    lemma_div_is_ordered, lemma_div_pos_is_pos, lemma_fundamental_div_mod,
    lemma_mod_division_less_than_divisor,
};

verus! {

/// `x / d` is at most `q` as soon as `x` stays below `(q + 1) * d`.
pub(crate) proof fn lemma_div_below(x: int, d: int, q: int)
    requires
        0 <= x,
        1 <= d,
        x < (q + 1) * d,
    ensures
        x / d <= q,
{
    lemma_fundamental_div_mod(x, d);
    lemma_mod_division_less_than_divisor(x, d);
    assert(x / d <= q) by (nonlinear_arith)
        requires
            d * (x / d) <= x,
            x < (q + 1) * d,
            1 <= d,
    ;
}

/// `x / d` is at least `q` as soon as `x` reaches `q * d`.
pub(crate) proof fn lemma_div_above(x: int, d: int, q: int)
    requires
        0 <= x,
        1 <= d,
        q * d <= x,
    ensures
        q <= x / d,
{
    lemma_fundamental_div_mod(x, d);
    lemma_mod_division_less_than_divisor(x, d);
    assert(q <= x / d) by (nonlinear_arith)
        requires
            x < d * (x / d) + d,
            q * d <= x,
            1 <= d,
    ;
}

/// Zero divided by any positive number is zero.
pub(crate) proof fn lemma_zero_div(d: int)
    requires
        1 <= d,
    ensures
        0int / d == 0,
{
    lemma_div_pos_is_pos(0, d);
    lemma_div_below(0, d, 0);
}

/// Bounds of a product divided by a positive constant, from bounds of the
/// two factors.
pub(crate) proof fn lemma_muldiv_le(a: int, b: int, d: int, ab: int, bb: int)
    requires
        0 <= a <= ab,
        0 <= b <= bb,
        1 <= d,
    ensures
        0 <= (a * b) / d <= (ab * bb) / d,
{
    assert(a * b <= ab * bb) by (nonlinear_arith)
        requires
            0 <= a <= ab,
            0 <= b <= bb,
    ;
    assert(0 <= a * b) by (nonlinear_arith)
        requires
            0 <= a,
            0 <= b,
    ;
    lemma_div_pos_is_pos(a * b, d);
    lemma_div_is_ordered(a * b, ab * bb, d);
}

/// `a * b / d`, rounded toward zero, on nonnegative operands.
pub(crate) fn mul_div(a: i64, b: i64, d: i64) -> (r: i64)
    requires
        0 <= a <= 3_000_000_000,
        0 <= b <= 2_000_000_000,
        1 <= d,
    ensures
        r == (a * b) / (d as int),
        0 <= r,
        b <= d ==> r <= a,
{
    proof {
        assert(a * b <= 3_000_000_000 * 2_000_000_000) by (nonlinear_arith)
            requires
                0 <= a <= 3_000_000_000,
                0 <= b <= 2_000_000_000,
        ;
        assert(0 <= a * b) by (nonlinear_arith)
            requires
                0 <= a,
                0 <= b,
        ;
        lemma_div_pos_is_pos(a * b, d as int);
        if b <= d {
            assert(a * b < (a + 1) * d) by (nonlinear_arith)
                requires
                    0 <= a,
                    0 <= b <= d,
                    1 <= d,
            ;
            lemma_div_below(a * b, d as int, a as int);
        }
    }
    (a * b) / d
}

/// Truncated series of `e^f` on one fixed-point unit: `0 <= f < 1_000_000`.
pub open spec fn exp_frac_spec(f: int) -> int {
    let t2: int = f * f / 2_000_000;
    let t3: int = t2 * f / 3_000_000;
    let t4: int = t3 * f / 4_000_000;
    let t5: int = t4 * f / 5_000_000;
    let t6: int = t5 * f / 6_000_000;
    let t7: int = t6 * f / 7_000_000;
    let t8: int = t7 * f / 8_000_000;
    let t9: int = t8 * f / 9_000_000;
    1_000_000 + f + t2 + t3 + t4 + t5 + t6 + t7 + t8 + t9
}

fn exp_frac(f: i64) -> (r: i64)
    requires
        0 <= f < 1_000_000,
    ensures
        r == exp_frac_spec(f as int),
        1_000_000 <= r <= 10_000_000,
{
    let t2: i64 = mul_div(f, f, 2_000_000);
    let t3: i64 = mul_div(t2, f, 3_000_000);
    let t4: i64 = mul_div(t3, f, 4_000_000);
    let t5: i64 = mul_div(t4, f, 5_000_000);
    let t6: i64 = mul_div(t5, f, 6_000_000);
    let t7: i64 = mul_div(t6, f, 7_000_000);
    let t8: i64 = mul_div(t7, f, 8_000_000);
    let t9: i64 = mul_div(t8, f, 9_000_000);
    1_000_000 + f + t2 + t3 + t4 + t5 + t6 + t7 + t8 + t9
}

/// `v` multiplied `k` times by the fixed-point value of `1 / e`.
pub open spec fn scale_down_spec(v: int, k: int) -> int
    decreases k,
{
    if k <= 0 {
        v
    } else {
        scale_down_spec(v * 367_879 / 1_000_000, k - 1)
    }
}

fn scale_down(v: i64, k: i64) -> (r: i64)
    requires
        0 <= v <= 10_000_000,
        0 <= k <= 15,
    ensures
        r == scale_down_spec(v as int, k as int),
        0 <= r <= v,
    decreases k,
{
    if k == 0 {
        v
    } else {
        let w: i64 = mul_div(v, 367_879, 1_000_000);
        scale_down(w, k - 1)
    }
}

/// Fixed-point `e^x`, truncated, on `-40 <= x <= 1.4` in real units.
///
/// Below `e^-14.5` the result underflows the scale and is pinned to zero.
pub open spec fn fx_exp_spec(x: int) -> int {
    if x <= -14_500_000 {
        0
    } else if x < 0 {
        let k: int = (-x + 999_999) / 1_000_000;
        scale_down_spec(exp_frac_spec(k * 1_000_000 + x), k)
    } else if x < 1_000_000 {
        exp_frac_spec(x)
    } else {
        exp_frac_spec(x - 1_000_000) * 2_718_281 / 1_000_000
    }
}

pub fn fx_exp(x: i64) -> (r: i64)
    requires
        -40_000_000 <= x <= 1_400_000,
    ensures
        r == fx_exp_spec(x as int),
        0 <= r <= 28_000_000,
        x >= 0 ==> r >= 1_000_000,
{
    if x <= -14_500_000 {
        0
    } else if x < 0 {
        let k: i64 = (-x + 999_999) / 1_000_000;
        proof {
            let y: int = -x + 999_999;
            lemma_fundamental_div_mod(y, 1_000_000);
            lemma_mod_division_less_than_divisor(y, 1_000_000);
        }
        let f: i64 = k * 1_000_000 + x;
        let e: i64 = exp_frac(f);
        scale_down(e, k)
    } else if x < 1_000_000 {
        exp_frac(x)
    } else {
        let e: i64 = exp_frac(x - 1_000_000);
        proof {
            lemma_muldiv_le(e as int, 2_718_281, 1_000_000, 10_000_000, 2_718_281);
            lemma_div_above(e * 2_718_281, 1_000_000, 2_718_281);
        }
        mul_div(e, 2_718_281, 1_000_000)
    }
}

/// A series term `a * f / d` respects the order of its factors.
proof fn lemma_term_mono(a1: int, a2: int, f1: int, f2: int, d: int)
    requires
        0 <= a1 <= a2,
        0 <= f1 <= f2,
        1 <= d,
    ensures
        0 <= a1 * f1 / d <= a2 * f2 / d,
{
    assert(0 <= a1 * f1 && a1 * f1 <= a2 * f2) by (nonlinear_arith)
        requires
            0 <= a1 <= a2,
            0 <= f1 <= f2,
    ;
    lemma_div_pos_is_pos(a1 * f1, d);
    lemma_div_is_ordered(a1 * f1, a2 * f2, d);
}

/// The truncated exponential series is monotone on its unit interval.
proof fn lemma_exp_frac_mono(f1: int, f2: int)
    requires
        0 <= f1 <= f2 < 1_000_000,
    ensures
        exp_frac_spec(f1) <= exp_frac_spec(f2),
{
    lemma_term_mono(f1, f2, f1, f2, 2_000_000);
    lemma_term_mono(f1 * f1 / 2_000_000, f2 * f2 / 2_000_000, f1, f2, 3_000_000);
    let a3: int = f1 * f1 / 2_000_000 * f1 / 3_000_000;
    let b3: int = f2 * f2 / 2_000_000 * f2 / 3_000_000;
    lemma_term_mono(a3, b3, f1, f2, 4_000_000);
    let a4: int = a3 * f1 / 4_000_000;
    let b4: int = b3 * f2 / 4_000_000;
    lemma_term_mono(a4, b4, f1, f2, 5_000_000);
    let a5: int = a4 * f1 / 5_000_000;
    let b5: int = b4 * f2 / 5_000_000;
    lemma_term_mono(a5, b5, f1, f2, 6_000_000);
    let a6: int = a5 * f1 / 6_000_000;
    let b6: int = b5 * f2 / 6_000_000;
    lemma_term_mono(a6, b6, f1, f2, 7_000_000);
    let a7: int = a6 * f1 / 7_000_000;
    let b7: int = b6 * f2 / 7_000_000;
    lemma_term_mono(a7, b7, f1, f2, 8_000_000);
    let a8: int = a7 * f1 / 8_000_000;
    let b8: int = b7 * f2 / 8_000_000;
    lemma_term_mono(a8, b8, f1, f2, 9_000_000);
}

/// Range of the truncated exponential series on its unit interval.
proof fn lemma_exp_frac_bounds(f: int)
    requires
        0 <= f < 1_000_000,
    ensures
        1_000_000 <= exp_frac_spec(f) <= 2_718_275,
{
    lemma_muldiv_le(f, f, 2_000_000, 999_999, 999_999);
    let t2: int = f * f / 2_000_000;
    lemma_muldiv_le(t2, f, 3_000_000, 499_999, 999_999);
    let t3: int = t2 * f / 3_000_000;
    lemma_muldiv_le(t3, f, 4_000_000, 166_666, 999_999);
    let t4: int = t3 * f / 4_000_000;
    lemma_muldiv_le(t4, f, 5_000_000, 41_666, 999_999);
    let t5: int = t4 * f / 5_000_000;
    lemma_muldiv_le(t5, f, 6_000_000, 8_333, 999_999);
    let t6: int = t5 * f / 6_000_000;
    lemma_muldiv_le(t6, f, 7_000_000, 1_388, 999_999);
    let t7: int = t6 * f / 7_000_000;
    lemma_muldiv_le(t7, f, 8_000_000, 198, 999_999);
    let t8: int = t7 * f / 8_000_000;
    lemma_muldiv_le(t8, f, 9_000_000, 24, 999_999);
}

/// Scaling down by the fixed-point `1 / e` keeps values ordered.
proof fn lemma_scale_down_mono(v1: int, v2: int, k: int)
    requires
        0 <= v1 <= v2,
        0 <= k,
    ensures
        scale_down_spec(v1, k) <= scale_down_spec(v2, k),
    decreases k,
{
    if k > 0 {
        lemma_term_mono(v1, v2, 367_879, 367_879, 1_000_000);
        lemma_scale_down_mono(v1 * 367_879 / 1_000_000, v2 * 367_879 / 1_000_000, k - 1);
    }
}

/// Scaling down by the fixed-point `1 / e` never increases a value.
proof fn lemma_scale_down_le(v: int, k: int)
    requires
        0 <= v,
        0 <= k,
    ensures
        0 <= scale_down_spec(v, k) <= v,
    decreases k,
{
    if k > 0 {
        assert(0 <= v * 367_879) by (nonlinear_arith)
            requires
                0 <= v,
        ;
        lemma_div_pos_is_pos(v * 367_879, 1_000_000);
        assert(v * 367_879 < (v + 1) * 1_000_000);
        lemma_div_below(v * 367_879, 1_000_000, v);
        lemma_scale_down_le(v * 367_879 / 1_000_000, k - 1);
    }
}

/// How a negative argument splits into whole and fractional fixed-point
/// units: the count of whole units and the range of the remainder.
proof fn lemma_exp_neg_decomp(x: int)
    requires
        -14_500_000 < x < 0,
    ensures
        ({
            let k: int = (-x + 999_999) / 1_000_000;
            1 <= k <= 15 && 0 <= k * 1_000_000 + x < 1_000_000
        }),
{
    let y: int = -x + 999_999;
    lemma_fundamental_div_mod(y, 1_000_000);
    lemma_mod_division_less_than_divisor(y, 1_000_000);
}

/// The fixed-point exponential is monotone over its whole domain.
pub proof fn lemma_fx_exp_mono(x1: int, x2: int)
    requires
        -40_000_000 <= x1 <= x2 <= 1_400_000,
    ensures
        fx_exp_spec(x1) <= fx_exp_spec(x2),
    decreases x2 - x1,
{
    // Each branch of the definition is nonnegative, and at least the scale
    // for a nonnegative argument.
    if -14_500_000 < x2 < 0 {
        lemma_exp_neg_decomp(x2);
        let k2: int = (-x2 + 999_999) / 1_000_000;
        lemma_exp_frac_bounds(k2 * 1_000_000 + x2);
        lemma_scale_down_le(exp_frac_spec(k2 * 1_000_000 + x2), k2);
    }
    if 0 <= x2 < 1_000_000 {
        lemma_exp_frac_bounds(x2);
    }
    if x2 >= 1_000_000 {
        lemma_exp_frac_bounds(x2 - 1_000_000);
        lemma_div_above(exp_frac_spec(x2 - 1_000_000) * 2_718_281, 1_000_000, 2_718_281);
    }
    if x1 == x2 || x1 <= -14_500_000 {
        // fx_exp_spec(x1) is zero or the two sides coincide.
    } else if x1 < 0 {
        lemma_exp_neg_decomp(x1);
        let k1: int = (-x1 + 999_999) / 1_000_000;
        let f1: int = k1 * 1_000_000 + x1;
        lemma_exp_frac_bounds(f1);
        let w1: int = exp_frac_spec(f1) * 367_879 / 1_000_000;
        lemma_term_mono(exp_frac_spec(f1), 2_718_275, 367_879, 367_879, 1_000_000);
        assert(w1 <= 999_996);
        if x2 >= 0 {
            // Everything below the scale against everything at or above it.
            lemma_scale_down_le(w1, k1 - 1);
            assert(fx_exp_spec(x1) <= 999_996);
        } else {
            lemma_exp_neg_decomp(x2);
            let k2: int = (-x2 + 999_999) / 1_000_000;
            let f2: int = k2 * 1_000_000 + x2;
            lemma_exp_frac_bounds(f2);
            lemma_div_is_ordered(-x2 + 999_999, -x1 + 999_999, 1_000_000);
            if k1 == k2 {
                lemma_exp_frac_mono(f1, f2);
                lemma_scale_down_mono(exp_frac_spec(f1), exp_frac_spec(f2), k1);
            } else if k1 == k2 + 1 {
                // Glue at the segment boundary: one more scale-down step
                // lands below the bottom of the next segment.
                lemma_scale_down_mono(w1, exp_frac_spec(f2), k2);
            } else {
                // Step the left argument one whole unit up and recurse.
                lemma_fx_exp_mono(x1 + 1_000_000, x2);
                lemma_exp_neg_decomp(x1 + 1_000_000);
                lemma_scale_down_mono(w1, exp_frac_spec(f1), k1 - 1);
            }
        }
    } else {
        // Both arguments are nonnegative.
        if x2 < 1_000_000 {
            lemma_exp_frac_mono(x1, x2);
        } else if x1 < 1_000_000 {
            lemma_exp_frac_bounds(x1);
        } else {
            lemma_exp_frac_mono(x1 - 1_000_000, x2 - 1_000_000);
            lemma_term_mono(
                exp_frac_spec(x1 - 1_000_000),
                exp_frac_spec(x2 - 1_000_000),
                2_718_281,
                2_718_281,
                1_000_000,
            );
        }
    }
}

/// Truncated odd series of `ln m` on a normalized `1_000_000 <= m < 2_000_000`.
pub open spec fn ln_core_spec(m: int) -> int {
    let u: int = (m - 1_000_000) * 1_000_000 / (m + 1_000_000);
    let u2: int = u * u / 1_000_000;
    let u3: int = u2 * u / 1_000_000;
    let u5: int = u3 * u2 / 1_000_000;
    let u7: int = u5 * u2 / 1_000_000;
    let u9: int = u7 * u2 / 1_000_000;
    2 * (u + u3 / 3 + u5 / 5 + u7 / 7 + u9 / 9)
}

fn ln_core(m: i64) -> (r: i64)
    requires
        1_000_000 <= m < 2_000_000,
    ensures
        r == ln_core_spec(m as int),
        0 <= r <= 693_142,
        m == 1_000_000 ==> r == 0,
        m <= 1_100_000 ==> r <= 100_082,
{
    let u: i64 = mul_div(m - 1_000_000, 1_000_000, m + 1_000_000);
    proof {
        assert((m - 1_000_000) * 1_000_000 < 333_334 * (m + 1_000_000));
        lemma_div_below((m - 1_000_000) * 1_000_000, m + 1_000_000, 333_333);
    }
    let u2: i64 = mul_div(u, u, 1_000_000);
    proof {
        lemma_muldiv_le(u as int, u as int, 1_000_000, 333_333, 333_333);
    }
    let u3: i64 = mul_div(u2, u, 1_000_000);
    proof {
        lemma_muldiv_le(u2 as int, u as int, 1_000_000, 111_110, 333_333);
    }
    let u5: i64 = mul_div(u3, u2, 1_000_000);
    proof {
        lemma_muldiv_le(u3 as int, u2 as int, 1_000_000, 37_036, 111_110);
    }
    let u7: i64 = mul_div(u5, u2, 1_000_000);
    proof {
        lemma_muldiv_le(u5 as int, u2 as int, 1_000_000, 4_115, 111_110);
    }
    let u9: i64 = mul_div(u7, u2, 1_000_000);
    proof {
        lemma_muldiv_le(u7 as int, u2 as int, 1_000_000, 457, 111_110);
        lemma_div_is_ordered(u3 as int, 37_036, 3);
        lemma_div_is_ordered(u5 as int, 4_115, 5);
        lemma_div_is_ordered(u7 as int, 457, 7);
        lemma_div_is_ordered(u9 as int, 50, 9);
        lemma_div_pos_is_pos(u3 as int, 3);
        lemma_div_pos_is_pos(u5 as int, 5);
        lemma_div_pos_is_pos(u7 as int, 7);
        lemma_div_pos_is_pos(u9 as int, 9);
        lemma_zero_div(3);
        lemma_zero_div(5);
        lemma_zero_div(7);
        lemma_zero_div(9);
        if m <= 1_100_000 {
            assert((m - 1_000_000) * 1_000_000 < 50_001 * (m + 1_000_000));
            lemma_div_below((m - 1_000_000) * 1_000_000, m + 1_000_000, 50_000);
            lemma_muldiv_le(u as int, u as int, 1_000_000, 50_000, 50_000);
            lemma_muldiv_le(u2 as int, u as int, 1_000_000, 2_500, 50_000);
            lemma_muldiv_le(u3 as int, u2 as int, 1_000_000, 125, 2_500);
            lemma_muldiv_le(u5 as int, u2 as int, 1_000_000, 0, 2_500);
            lemma_muldiv_le(u7 as int, u2 as int, 1_000_000, 0, 2_500);
            lemma_div_is_ordered(u3 as int, 125, 3);
            lemma_div_is_ordered(u5 as int, 0, 5);
            lemma_div_is_ordered(u7 as int, 0, 7);
            lemma_div_is_ordered(u9 as int, 0, 9);
        }
    }
    2 * (u + u3 / 3 + u5 / 5 + u7 / 7 + u9 / 9)
}

/// Fixed-point `ln x`, truncated, on `1 <= x <= 15_000_000`.
///
/// The argument is first normalized into `[1_000_000, 2_000_000)` by powers
/// of two, and `693_147` stands for `ln 2` at the fixed-point scale.
pub open spec fn fx_ln_spec(x: int) -> int {
    let (m1, a1): (int, int) = if x <= 15 {
        (x * 65_536, -11_090_352)
    } else {
        (x, 0)
    };
    let (m2, a2): (int, int) = if m1 <= 3_906 {
        (m1 * 256, a1 - 5_545_176)
    } else {
        (m1, a1)
    };
    let (m3, a3): (int, int) = if m2 <= 62_499 {
        (m2 * 16, a2 - 2_772_588)
    } else {
        (m2, a2)
    };
    let (m4, a4): (int, int) = if m3 <= 249_999 {
        (m3 * 4, a3 - 1_386_294)
    } else {
        (m3, a3)
    };
    let (m5, a5): (int, int) = if m4 <= 499_999 {
        (m4 * 2, a4 - 693_147)
    } else {
        (m4, a4)
    };
    let (m6, a6): (int, int) = if m5 <= 999_999 {
        (m5 * 2, a5 - 693_147)
    } else {
        (m5, a5)
    };
    let (m7, a7): (int, int) = if m6 >= 2_000_000 {
        (m6 / 2, a6 + 693_147)
    } else {
        (m6, a6)
    };
    let (m8, a8): (int, int) = if m7 >= 2_000_000 {
        (m7 / 2, a7 + 693_147)
    } else {
        (m7, a7)
    };
    let (m9, a9): (int, int) = if m8 >= 2_000_000 {
        (m8 / 2, a8 + 693_147)
    } else {
        (m8, a8)
    };
    ln_core_spec(m9) + a9
}

/// Range of the logarithm series, with a tight bound just above one.
proof fn lemma_ln_core_range(m: int)
    requires
        1_000_000 <= m < 2_000_000,
    ensures
        0 <= ln_core_spec(m) <= 693_142,
        m <= 1_000_999 ==> ln_core_spec(m) <= 1_000,
{
    let u: int = (m - 1_000_000) * 1_000_000 / (m + 1_000_000);
    assert((m - 1_000_000) * 1_000_000 < 333_334 * (m + 1_000_000));
    lemma_div_pos_is_pos((m - 1_000_000) * 1_000_000, m + 1_000_000);
    lemma_div_below((m - 1_000_000) * 1_000_000, m + 1_000_000, 333_333);
    lemma_muldiv_le(u, u, 1_000_000, 333_333, 333_333);
    let s2: int = u * u / 1_000_000;
    lemma_muldiv_le(s2, u, 1_000_000, 111_110, 333_333);
    let s3: int = s2 * u / 1_000_000;
    lemma_muldiv_le(s3, s2, 1_000_000, 37_036, 111_110);
    let s5: int = s3 * s2 / 1_000_000;
    lemma_muldiv_le(s5, s2, 1_000_000, 4_115, 111_110);
    let s7: int = s5 * s2 / 1_000_000;
    lemma_muldiv_le(s7, s2, 1_000_000, 457, 111_110);
    let s9: int = s7 * s2 / 1_000_000;
    lemma_div_is_ordered(s3, 37_036, 3);
    lemma_div_is_ordered(s5, 4_115, 5);
    lemma_div_is_ordered(s7, 457, 7);
    lemma_div_is_ordered(s9, 50, 9);
    lemma_div_pos_is_pos(s3, 3);
    lemma_div_pos_is_pos(s5, 5);
    lemma_div_pos_is_pos(s7, 7);
    lemma_div_pos_is_pos(s9, 9);
    lemma_zero_div(3);
    lemma_zero_div(5);
    lemma_zero_div(7);
    lemma_zero_div(9);
    if m <= 1_000_999 {
        assert((m - 1_000_000) * 1_000_000 < 500 * (m + 1_000_000));
        lemma_div_below((m - 1_000_000) * 1_000_000, m + 1_000_000, 499);
        lemma_muldiv_le(u, u, 1_000_000, 499, 499);
        lemma_muldiv_le(s2, u, 1_000_000, 0, 499);
        lemma_muldiv_le(s3, s2, 1_000_000, 0, 0);
        lemma_muldiv_le(s5, s2, 1_000_000, 0, 0);
        lemma_muldiv_le(s7, s2, 1_000_000, 0, 0);
        lemma_div_is_ordered(s3, 0, 3);
        lemma_div_is_ordered(s5, 0, 5);
        lemma_div_is_ordered(s7, 0, 7);
        lemma_div_is_ordered(s9, 0, 9);
    }
}

/// The logarithm series is monotone on its normalized interval.
proof fn lemma_ln_core_mono(m1: int, m2: int)
    requires
        1_000_000 <= m1 <= m2 < 2_000_000,
    ensures
        ln_core_spec(m1) <= ln_core_spec(m2),
{
    let a1: int = (m1 - 1_000_000) * 1_000_000;
    let b1: int = m1 + 1_000_000;
    let a2: int = (m2 - 1_000_000) * 1_000_000;
    let b2: int = m2 + 1_000_000;
    let u1: int = a1 / b1;
    let u2: int = a2 / b2;
    lemma_fundamental_div_mod(a1, b1);
    lemma_mod_division_less_than_divisor(a1, b1);
    lemma_div_pos_is_pos(a1, b1);
    assert(a1 * b2 <= a2 * b1) by (nonlinear_arith)
        requires
            a1 == (m1 - 1_000_000) * 1_000_000,
            b1 == m1 + 1_000_000,
            a2 == (m2 - 1_000_000) * 1_000_000,
            b2 == m2 + 1_000_000,
            1_000_000 <= m1 <= m2,
    ;
    assert(u1 * b2 <= a2) by (nonlinear_arith)
        requires
            b1 * u1 <= a1,
            a1 * b2 <= a2 * b1,
            1 <= b1,
            0 <= u1,
            0 <= b2,
    ;
    assert(0 <= a2);
    lemma_div_above(a2, b2, u1);
    lemma_div_below(a1, b1, 333_333);
    lemma_div_below(a2, b2, 333_333);
    lemma_term_mono(u1, u2, u1, u2, 1_000_000);
    let s2a: int = u1 * u1 / 1_000_000;
    let s2b: int = u2 * u2 / 1_000_000;
    lemma_term_mono(s2a, s2b, u1, u2, 1_000_000);
    let s3a: int = s2a * u1 / 1_000_000;
    let s3b: int = s2b * u2 / 1_000_000;
    lemma_term_mono(s3a, s3b, s2a, s2b, 1_000_000);
    let s5a: int = s3a * s2a / 1_000_000;
    let s5b: int = s3b * s2b / 1_000_000;
    lemma_term_mono(s5a, s5b, s2a, s2b, 1_000_000);
    let s7a: int = s5a * s2a / 1_000_000;
    let s7b: int = s5b * s2b / 1_000_000;
    lemma_term_mono(s7a, s7b, s2a, s2b, 1_000_000);
    lemma_div_is_ordered(s3a, s3b, 3);
    lemma_div_is_ordered(s5a, s5b, 5);
    lemma_div_is_ordered(s7a, s7b, 7);
    lemma_div_is_ordered(s7a * s2a / 1_000_000, s7b * s2b / 1_000_000, 9);
}

/// The fixed-point logarithm is monotone on the range where its argument
/// needs no more normalization than one doubling, and its values there stay
/// within one unit of `ln 2` around zero.
pub proof fn lemma_fx_ln_mono_above(x1: int, x2: int)
    requires
        500_000 <= x1 <= x2 <= 1_999_999,
    ensures
        fx_ln_spec(x1) <= fx_ln_spec(x2),
        -693_147 <= fx_ln_spec(x1) <= 693_142,
        x1 >= 1_000_000 ==> fx_ln_spec(x1) >= 0,
        x1 <= 1_000_999 ==> fx_ln_spec(x1) <= 1_000,
{
    if x1 <= 999_999 {
        lemma_ln_core_range(2 * x1);
    } else {
        lemma_ln_core_range(x1);
    }
    if x2 <= 999_999 {
        lemma_ln_core_range(2 * x2);
        lemma_ln_core_mono(2 * x1, 2 * x2);
    } else {
        lemma_ln_core_range(x2);
        if x1 >= 1_000_000 {
            lemma_ln_core_mono(x1, x2);
        }
    }
}

pub fn fx_ln(x: i64) -> (r: i64)
    requires
        1 <= x <= 15_000_000,
    ensures
        r == fx_ln_spec(x as int),
        -22_200_000 <= r <= 2_800_000,
        x <= 1_000_000 ==> r <= 0,
        x >= 1_000_000 ==> r >= 0,
        x >= 100_000 ==> r >= -2_772_588,
        x >= 500_000 ==> r >= -693_147,
        x <= 1_100_000 ==> r <= 100_082,
{
    let (m1, a1): (i64, i64) = if x <= 15 {
        (x * 65_536, -11_090_352)
    } else {
        (x, 0)
    };
    let (m2, a2): (i64, i64) = if m1 <= 3_906 {
        (m1 * 256, a1 - 5_545_176)
    } else {
        (m1, a1)
    };
    let (m3, a3): (i64, i64) = if m2 <= 62_499 {
        (m2 * 16, a2 - 2_772_588)
    } else {
        (m2, a2)
    };
    let (m4, a4): (i64, i64) = if m3 <= 249_999 {
        (m3 * 4, a3 - 1_386_294)
    } else {
        (m3, a3)
    };
    let (m5, a5): (i64, i64) = if m4 <= 499_999 {
        (m4 * 2, a4 - 693_147)
    } else {
        (m4, a4)
    };
    let (m6, a6): (i64, i64) = if m5 <= 999_999 {
        (m5 * 2, a5 - 693_147)
    } else {
        (m5, a5)
    };
    proof {
        if x >= 1_000_000 {
            assert(m6 == x && a6 == 0);
        }
        if m6 >= 2_000_000 {
            lemma_div_is_ordered(m6 as int, 15_000_000, 2);
            lemma_div_above(m6 as int, 2, 1_000_000);
            lemma_div_pos_is_pos(m6 as int, 2);
        }
    }
    let (m7, a7): (i64, i64) = if m6 >= 2_000_000 {
        (m6 / 2, a6 + 693_147)
    } else {
        (m6, a6)
    };
    proof {
        if m7 >= 2_000_000 {
            lemma_div_is_ordered(m7 as int, 7_500_000, 2);
            lemma_div_above(m7 as int, 2, 1_000_000);
            lemma_div_pos_is_pos(m7 as int, 2);
        }
    }
    let (m8, a8): (i64, i64) = if m7 >= 2_000_000 {
        (m7 / 2, a7 + 693_147)
    } else {
        (m7, a7)
    };
    proof {
        if m8 >= 2_000_000 {
            lemma_div_is_ordered(m8 as int, 3_750_000, 2);
            lemma_div_above(m8 as int, 2, 1_000_000);
            lemma_div_pos_is_pos(m8 as int, 2);
        }
    }
    let (m9, a9): (i64, i64) = if m8 >= 2_000_000 {
        (m8 / 2, a8 + 693_147)
    } else {
        (m8, a8)
    };
    let core: i64 = ln_core(m9);
    proof {
        if x < 1_000_000 {
            assert(a6 <= -693_147);
        }
    }
    core + a9
}

} // verus!
