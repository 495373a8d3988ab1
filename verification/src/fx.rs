//! Fixed-point arithmetic: an `i64` raw value counts millionths, so a raw
//! value `r` stands for the real number `r / 1_000_000`.
//!
//! Every fixed-point operation saturates at `FX_LIM` (a billion in real
//! terms), far beyond any quantity the simulation produces, so arithmetic is
//! total and overflow-free while the interesting range behaves exactly.

use vstd::prelude::*;

verus! {

/// The raw value that stands for 1.0.
pub const FX_ONE: i64 = 1_000_000;

/// Saturation bound on every fixed-point value (a billion in real terms).
pub const FX_LIM: i64 = 1_000_000_000_000_000;

/// The angle pi, in fixed point (truncated to an even raw value so that
/// half and quarter angles are exact).
pub const FX_PI: i64 = 3_141_592;

/// The full turn, two pi, in fixed point.
pub const FX_TAU: i64 = 6_283_184;

/// A quarter turn, pi over two, in fixed point.
pub const FX_HALF_PI: i64 = 1_570_796;

/// Saturate an unbounded integer into `[-FX_LIM, FX_LIM]`.
pub open spec fn fx_clip(x: int) -> int {
    if x > FX_LIM as int {
        FX_LIM as int
    } else if x < -(FX_LIM as int) {
        -(FX_LIM as int)
    } else {
        x
    }
}

/// Division rounding towards zero, for a positive divisor.
pub open spec fn div_towards_zero(p: int, d: int) -> int {
    if p >= 0 {
        p / d
    } else {
        -((-p) / d)
    }
}

/// The fixed-point product: multiply the raw values, scale back down
/// (rounding towards zero), and saturate.
pub open spec fn fx_mul_spec(a: int, b: int) -> int {
    fx_clip(div_towards_zero(a * b, FX_ONE as int))
}

/// The saturating fixed-point sum.
pub open spec fn fx_add_spec(a: int, b: int) -> int {
    fx_clip(a + b)
}

proof fn lemma_i64_mul_bound(a: int, b: int)
    requires
        -0x8000_0000_0000_0000 <= a <= 0x7fff_ffff_ffff_ffff,
        -0x8000_0000_0000_0000 <= b <= 0x7fff_ffff_ffff_ffff,
    ensures
        -0x4000_0000_0000_0000_0000_0000_0000_0000 <= a * b
            <= 0x4000_0000_0000_0000_0000_0000_0000_0000,
{
    assert(-0x4000_0000_0000_0000_0000_0000_0000_0000 <= a * b
        <= 0x4000_0000_0000_0000_0000_0000_0000_0000) by (nonlinear_arith)
        requires
            -0x8000_0000_0000_0000 <= a <= 0x7fff_ffff_ffff_ffff,
            -0x8000_0000_0000_0000 <= b <= 0x7fff_ffff_ffff_ffff,
    ;
}

/// Fixed-point multiplication.
pub fn fx_mul(a: i64, b: i64) -> (r: i64)
    ensures
        r == fx_mul_spec(a as int, b as int),
        -FX_LIM <= r <= FX_LIM,
{
    proof {
        lemma_i64_mul_bound(a as int, b as int);
    }
    let p: i128 = (a as i128) * (b as i128);
    let m: u128 = if p < 0 {
        (-p) as u128
    } else {
        p as u128
    };
    let q: u128 = m / (FX_ONE as u128);
    let mag: i64 = if q > FX_LIM as u128 {
        FX_LIM
    } else {
        q as i64
    };
    if p < 0 {
        -mag
    } else {
        mag
    }
}

/// Fixed-point saturating addition.
pub fn fx_add(a: i64, b: i64) -> (r: i64)
    ensures
        r == fx_add_spec(a as int, b as int),
        -FX_LIM <= r <= FX_LIM,
{
    let s: i128 = (a as i128) + (b as i128);
    if s > FX_LIM as i128 {
        FX_LIM
    } else if s < -(FX_LIM as i128) {
        -FX_LIM
    } else {
        s as i64
    }
}

/// Clamp into a closed interval.
pub fn fx_clamp(x: i64, lo: i64, hi: i64) -> (r: i64)
    requires
        lo <= hi,
    ensures
        r == if x < lo { lo as int } else if x > hi { hi as int } else { x as int },
        lo <= r <= hi,
{
    if x < lo {
        lo
    } else if x > hi {
        hi
    } else {
        x
    }
}

/// Euclidean wraparound: the unique representative of `v` modulo `m` that
/// lies in `[0, m)`, whatever the sign of `v`.
pub fn wrap_fx(v: i64, m: i64) -> (r: i64)
    requires
        1 <= m,
    ensures
        r == (v as int) % (m as int),
        0 <= r < m,
{
    if v >= 0 {
        let r = ((v as u64) % (m as u64)) as i64;
        r
    } else {
        let a: i128 = -(v as i128);
        let k: i64 = ((a as u128) % (m as u128)) as i64;
        proof {
            lemma_mod_of_negation(a as int, m as int);
        }
        if k == 0 {
            0
        } else {
            m - k
        }
    }
}

/// A quotient of a bounded nonnegative dividend is bounded: if
/// `0 <= n <= c * d` then `0 <= n / d <= c`.
pub proof fn lemma_div_bounds(n: int, d: int, c: int)
    requires
        0 <= n,
        n <= c * d,
        d >= 1,
        c >= 0,
    ensures
        0 <= n / d <= c,
{
    vstd::arithmetic::div_mod::lemma_div_pos_is_pos(n, d);
    vstd::arithmetic::div_mod::lemma_div_is_ordered(n, c * d, d);
    vstd::arithmetic::div_mod::lemma_div_by_multiple(c, d);
}

/// The integer square root: the unique `r` with `r * r <= x < (r + 1) * (r + 1)`.
pub fn fx_isqrt(x: u128) -> (r: u128)
    ensures
        r * r <= x,
        (r + 1) * (r + 1) > x,
        r < 0x1_0000_0000_0000_0000,
{
    let mut lo: u128 = 0;
    let mut hi: u128 = 0x1_0000_0000_0000_0000;
    proof {
        assert(hi * hi > x) by (nonlinear_arith)
            requires
                hi == 0x1_0000_0000_0000_0000u128,
                x <= u128::MAX,
        ;
    }
    while lo + 1 < hi
        invariant
            lo < hi <= 0x1_0000_0000_0000_0000,
            lo * lo <= x,
            hi * hi > x,
        decreases hi - lo,
    {
        let mid = lo + (hi - lo) / 2;
        proof {
            assert(mid * mid <= u128::MAX) by (nonlinear_arith)
                requires
                    mid < 0x1_0000_0000_0000_0000u128,
            ;
        }
        if mid * mid <= x {
            lo = mid;
        } else {
            hi = mid;
        }
    }
    lo
}

/// For a positive modulus, the remainder of `-a` is `m - a % m`, except when
/// `a` divides evenly, where it is `0`.
proof fn lemma_mod_of_negation(a: int, m: int)
    requires
        0 < m,
        0 <= a,
    ensures
        (-a) % m == if a % m == 0 { 0int } else { m - a % m },
{
    let q = a / m;
    let r = a % m;
    vstd::arithmetic::div_mod::lemma_fundamental_div_mod(a, m);
    if r == 0 {
        assert(-a == m * (-q) + 0) by (nonlinear_arith)
            requires
                a == m * q + r,
                r == 0,
        ;
        vstd::arithmetic::div_mod::lemma_fundamental_div_mod_converse(-a, m, -q, 0);
    } else {
        assert(-a == m * (-q - 1) + (m - r)) by (nonlinear_arith)
            requires
                a == m * q + r,
        ;
        vstd::arithmetic::div_mod::lemma_fundamental_div_mod_converse(-a, m, -q - 1, m - r);
    }
}

} // verus!
