//! Fixed-point arithmetic: every coordinate, matrix entry and intensity in
//! this crate is an `i64` (or `i128`) counting steps of `1/FX`. The helpers
//! here give exact, machine-checked meanings to the roundings the renderer
//! performs: floor division and round-to-nearest division by a positive
//! divisor.

use vstd::prelude::*;
use vstd::arithmetic::div_mod::{
    lemma_fundamental_div_mod, lemma_fundamental_div_mod_converse_div, lemma_div_is_ordered,
    lemma_hoist_over_denominator, lemma_basic_div,
};

verus! {

/// One unit of the fixed-point scale: a stored value `v` stands for `v / FX`.
pub const FX: i64 = 65536;

/// Half of one fixed-point unit.
pub const HALF_FX: i64 = 32768;

/// Division `n / d` for `d > 0` rounded to the nearest integer, halves
/// rounding up. In specifications `/` is Euclidean (floor) division, so
/// this is exactly `floor((2n + d) / (2d))`.
pub open spec fn round_div(n: int, d: int) -> int {
    (2 * n + d) / (2 * d)
}

/// Floor division of a possibly negative numerator by a positive divisor.
pub fn div_floor_i128(n: i128, d: i128) -> (r: i128)
    requires
        1 <= d <= 0x2000_0000_0000_0000_0000_0000_0000_0000i128,
        -0x2000_0000_0000_0000_0000_0000_0000_0000i128 <= n,
        n <= 0x2000_0000_0000_0000_0000_0000_0000_0000i128,
    ensures
        r == n as int / d as int,
{
    if n >= 0 {
        n / d
    } else {
        let m: i128 = -n;
        let q: i128 = (m + d - 1) / d;
        proof {
            let mi: int = m as int;
            let di: int = d as int;
            let qi: int = (mi + di - 1) / di;
            lemma_fundamental_div_mod(mi + di - 1, di);
            let r1: int = (mi + di - 1) % di;
            assert(mi + di - 1 == di * qi + r1);
            assert(n as int == (-qi) * di + (di - 1 - r1)) by {
                assert(di * qi == qi * di) by (nonlinear_arith);
                assert((-qi) * di == -(qi * di)) by (nonlinear_arith);
            }
            lemma_fundamental_div_mod_converse_div(n as int, di, -qi, di - 1 - r1);
        }
        -q
    }
}

/// Proof that for a nonnegative numerator bounded by `b * d`, the floor
/// quotient stays within `[0, b]`.
pub proof fn lemma_div_nonneg_bound(n: int, d: int, b: int)
    requires
        d >= 1,
        b >= 0,
        0 <= n <= b * d,
    ensures
        0 <= n / d <= b,
{
    lemma_div_is_ordered(0, n, d);
    lemma_basic_div(0, d);
    lemma_div_is_ordered(n, b * d, d);
    lemma_hoist_over_denominator(0, b, d as nat);
    assert(b * d / d == b);
}

/// Proof that `round_div` of a numerator bounded by `b * d` in magnitude is
/// itself bounded by `b` in magnitude.
pub proof fn lemma_round_div_bound(n: int, d: int, b: int)
    requires
        d >= 1,
        b >= 0,
        -(b * d) <= n <= b * d,
    ensures
        -b <= round_div(n, d) <= b,
{
    let num: int = 2 * n + d;
    let den: int = 2 * d;
    let shifted: int = num + b * den;
    assert(b * (2 * d) == 2 * (b * d)) by (nonlinear_arith);
    assert((2 * b) * (2 * d) == 4 * (b * d)) by (nonlinear_arith);
    assert(shifted >= d);
    assert(shifted <= 4 * (b * d) + d);
    assert(shifted <= (2 * b) * den + (den - 1));
    assert(0 <= shifted / den) by {
        lemma_div_is_ordered(0, shifted, den);
        lemma_basic_div(0, den);
    }
    assert(shifted / den <= 2 * b) by {
        lemma_div_is_ordered(shifted, (den - 1) + (2 * b) * den, den);
        lemma_hoist_over_denominator(den - 1, 2 * b, den as nat);
        lemma_basic_div(den - 1, den);
    }
    assert(num / den + b == shifted / den) by {
        lemma_hoist_over_denominator(num, b, den as nat);
    }
}

/// Proof that a weighted average with nonnegative weights summing to the
/// divisor stays within the bounds of the averaged values: the heart of the
/// renderer's claim that interpolated depths and texture coordinates never
/// leave the range spanned by the triangle's vertices.
pub proof fn lemma_convex_round_div(
    z0: int,
    z1: int,
    z2: int,
    t0: int,
    t1: int,
    t2: int,
    b: int,
)
    requires
        t0 >= 0,
        t1 >= 0,
        t2 >= 0,
        t0 + t1 + t2 >= 1,
        b >= 0,
        -b <= z0 <= b,
        -b <= z1 <= b,
        -b <= z2 <= b,
    ensures
        -b <= round_div(z0 * t0 + z1 * t1 + z2 * t2, t0 + t1 + t2) <= b,
{
    assert(-(b * t0) <= z0 * t0 <= b * t0) by (nonlinear_arith)
        requires t0 >= 0, -b <= z0 <= b;
    assert(-(b * t1) <= z1 * t1 <= b * t1) by (nonlinear_arith)
        requires t1 >= 0, -b <= z1 <= b;
    assert(-(b * t2) <= z2 * t2 <= b * t2) by (nonlinear_arith)
        requires t2 >= 0, -b <= z2 <= b;
    assert(b * t0 + b * t1 + b * t2 == b * (t0 + t1 + t2)) by (nonlinear_arith);
    lemma_round_div_bound(z0 * t0 + z1 * t1 + z2 * t2, t0 + t1 + t2, b);
}

/// Magnitude bound on a product, from magnitude bounds on its factors.
pub proof fn lemma_mul_abs_bound(a: int, b: int, ma: int, mb: int)
    requires
        -ma <= a <= ma,
        -mb <= b <= mb,
        0 <= ma,
        0 <= mb,
    ensures
        -(ma * mb) <= a * b <= ma * mb,
{
    assert(-(ma * mb) <= a * b <= ma * mb) by (nonlinear_arith)
        requires -ma <= a <= ma, -mb <= b <= mb, 0 <= ma, 0 <= mb;
}

/// The floor of the square root of a nonnegative integer. The defining
/// property (squaring bounds the argument on both sides) pins the value
/// down uniquely; `lemma_sqrt_floor_is` recovers it from any witness.
pub open spec fn sqrt_floor(s: int) -> int {
    choose|r: int| 0 <= r && #[trigger] (r * r) <= s && s < (r + 1) * (r + 1)
}

/// Any witness to the square-root bounds is the `sqrt_floor`.
pub proof fn lemma_sqrt_floor_is(s: int, r: int)
    requires
        0 <= r,
        r * r <= s,
        s < (r + 1) * (r + 1),
    ensures
        sqrt_floor(s) == r,
{
    assert(0 <= r && r * r <= s && s < (r + 1) * (r + 1));
    let c = sqrt_floor(s);
    assert(0 <= c && c * c <= s && s < (c + 1) * (c + 1));
    assert(c == r) by (nonlinear_arith)
        requires
            0 <= r,
            r * r <= s,
            s < (r + 1) * (r + 1),
            0 <= c,
            c * c <= s,
            s < (c + 1) * (c + 1);
}

/// Binary-search integer square root.
pub fn isqrt_u128(s: u128) -> (r: u128)
    requires
        s < 0x4_0000_0000_0000_0000_0000_0000_0000u128,
    ensures
        r as int == sqrt_floor(s as int),
        0 <= r <= 0x200_0000_0000_0000u128,
        (r as int) * (r as int) <= s as int,
        (s as int) < (r as int + 1) * (r as int + 1),
{
    let mut lo: u128 = 0;
    let mut hi: u128 = 0x200_0000_0000_0000;
    proof {
        assert((0x200_0000_0000_0000 as int) * (0x200_0000_0000_0000 as int)
            == 0x4_0000_0000_0000_0000_0000_0000_0000);
    }
    while lo + 1 < hi
        invariant
            lo < hi,
            hi <= 0x200_0000_0000_0000u128,
            (lo as int) * (lo as int) <= s as int,
            (s as int) < (hi as int) * (hi as int),
        decreases hi - lo,
    {
        let mid: u128 = lo + (hi - lo) / 2;
        proof {
            lemma_mul_abs_bound(mid as int, mid as int, 0x200_0000_0000_0000, 0x200_0000_0000_0000);
        }
        if mid * mid <= s {
            lo = mid;
        } else {
            hi = mid;
        }
    }
    proof {
        lemma_sqrt_floor_is(s as int, lo as int);
    }
    lo
}

/// Exact rounded division on `i128`, for a positive divisor.
pub fn round_div_i128(n: i128, d: i128) -> (r: i128)
    requires
        1 <= d <= 0x0400_0000_0000_0000_0000_0000_0000_0000i128,
        -0x0400_0000_0000_0000_0000_0000_0000_0000i128 <= n,
        n <= 0x0400_0000_0000_0000_0000_0000_0000_0000i128,
    ensures
        r == round_div(n as int, d as int),
{
    div_floor_i128(2 * n + d, 2 * d)
}

} // verus!
