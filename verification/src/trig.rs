//! Fixed-point trigonometry. The library defines its own sine, cosine and
//! arctangent as total integer functions: sine by Bhaskara's rational
//! approximation on a half turn, arctangent by a quadratic approximation on
//! the first octant. Each executable function returns exactly the value of
//! its spec-level definition.

use vstd::prelude::*;
use crate::fx::{lemma_div_bounds, wrap_fx, FX_ONE, FX_PI, FX_TAU, FX_HALF_PI};
use vstd::arithmetic::div_mod::{lemma_add_mod_noop, lemma_small_mod};

verus! {

/// An eighth of a turn, pi over four, in fixed point.
pub const FX_QUARTER_PI: i64 = 785_398;

/// The quadratic coefficient of the arctangent approximation (0.273).
pub const K_ATAN: i64 = 273_000;

/// Bhaskara's sine approximation on `[0, pi]`, in fixed point:
/// `16 x (pi - x) / (5 pi^2 - 4 x (pi - x))`, scaled to raw units.
pub open spec fn sin_poly(x: int) -> int {
    let prod = x * (FX_PI - x);
    (16 * prod * FX_ONE) / (5 * FX_PI * FX_PI - 4 * prod)
}

/// The library's sine: reduce into `[0, tau)`, apply the half-turn
/// approximation, negating on the second half turn.
pub open spec fn sin_spec(a: int) -> int {
    let w = a % (FX_TAU as int);
    if w <= FX_PI {
        sin_poly(w)
    } else {
        -sin_poly(w - FX_PI)
    }
}

/// The library's cosine: the sine a quarter turn ahead.
pub open spec fn cos_spec(a: int) -> int {
    sin_spec(a + FX_HALF_PI)
}

/// The first-octant arctangent approximation for a ratio `n / d` in
/// `[0, 1]`: with `z` the ratio in raw units,
/// `z * (pi/4 + 0.273 * (1 - z))`.
pub open spec fn atan_frac(n: int, d: int) -> int {
    let z = (n * FX_ONE) / d;
    (z * (FX_QUARTER_PI + (K_ATAN * (FX_ONE - z)) / (FX_ONE as int))) / (FX_ONE as int)
}

/// The library's two-argument arctangent: the angle of the vector `(x, y)`
/// in `(-pi, pi]`, built from the octant approximation by symmetry.
pub open spec fn atan2_spec(y: int, x: int) -> int {
    let ay = if y >= 0 { y } else { -y };
    let ax = if x >= 0 { x } else { -x };
    let base = if ax == 0 && ay == 0 {
        0
    } else if ay <= ax {
        atan_frac(ay, ax)
    } else {
        FX_HALF_PI - atan_frac(ax, ay)
    };
    let quad = if x >= 0 { base } else { FX_PI - base };
    let signed = if y >= 0 { quad } else { -quad };
    if signed == -FX_PI {
        FX_PI as int
    } else {
        signed
    }
}

fn sin_core(w: i64) -> (r: i64)
    requires
        0 <= w <= FX_PI,
    ensures
        r == sin_poly(w as int),
        0 <= r <= FX_ONE,
{
    let wu = w as u128;
    let pu = FX_PI as u128;
    proof {
        assert(0 <= (w as int) * (FX_PI - w as int) && 4 * ((w as int) * (FX_PI - w as int)) <= (
        FX_PI as int) * (FX_PI as int)) by (nonlinear_arith)
            requires
                0 <= w as int <= FX_PI as int,
        ;
    }
    let prod: u128 = wu * (pu - wu);
    proof {
        assert(prod == (w as int) * (FX_PI - w as int));
    }
    let num: u128 = prod * 16_000_000;
    let den: u128 = 5 * pu * pu - 4 * prod;
    let q: u128 = num / den;
    proof {
        lemma_div_bounds(num as int, den as int, FX_ONE as int);
    }
    q as i64
}

/// Fixed-point sine; the result is exactly `sin_spec` and lies in `[-1, 1]`.
pub fn sin_fx(a: i64) -> (r: i64)
    ensures
        r == sin_spec(a as int),
        -FX_ONE <= r <= FX_ONE,
{
    let w = wrap_fx(a, FX_TAU);
    if w <= FX_PI {
        sin_core(w)
    } else {
        let s = sin_core(w - FX_PI);
        -s
    }
}

/// Fixed-point cosine; the result is exactly `cos_spec` and lies in `[-1, 1]`.
pub fn cos_fx(a: i64) -> (r: i64)
    ensures
        r == cos_spec(a as int),
        -FX_ONE <= r <= FX_ONE,
{
    let w = wrap_fx(a, FX_TAU);
    proof {
        lemma_small_mod(FX_HALF_PI as nat, FX_TAU as nat);
        lemma_add_mod_noop(a as int, FX_HALF_PI as int, FX_TAU as int);
        lemma_add_mod_noop(w as int, FX_HALF_PI as int, FX_TAU as int);
        vstd::arithmetic::div_mod::lemma_mod_twice(a as int, FX_TAU as int);
    }
    sin_fx(w + FX_HALF_PI)
}

fn atan_frac_exec(n: u64, d: u64) -> (r: i64)
    requires
        n <= d,
        d >= 1,
    ensures
        r == atan_frac(n as int, d as int),
        0 <= r <= FX_QUARTER_PI + K_ATAN,
{
    let nu = n as u128;
    let du = d as u128;
    let su = FX_ONE as u128;
    proof {
        assert((n as int) * (FX_ONE as int) <= (FX_ONE as int) * (d as int)) by (nonlinear_arith)
            requires
                n as int <= d as int,
                0 <= n as int,
        ;
    }
    let z: u128 = (nu * su) / du;
    proof {
        lemma_div_bounds((n as int) * (FX_ONE as int), d as int, FX_ONE as int);
    }
    let k: u128 = ((K_ATAN as u128) * (su - z)) / su;
    proof {
        assert((K_ATAN as int) * (FX_ONE - z as int) <= (K_ATAN as int) * (FX_ONE as int))
            by (nonlinear_arith)
            requires
                0 <= z as int <= FX_ONE as int,
        ;
        assert(0 <= (K_ATAN as int) * (FX_ONE - z as int)) by (nonlinear_arith)
            requires
                0 <= z as int <= FX_ONE as int,
        ;
        lemma_div_bounds((K_ATAN as int) * (FX_ONE - z as int), FX_ONE as int, K_ATAN as int);
    }
    let inner: u128 = (FX_QUARTER_PI as u128) + k;
    proof {
        assert((z as int) * (inner as int) <= (FX_ONE as int) * (FX_QUARTER_PI + K_ATAN))
            by (nonlinear_arith)
            requires
                0 <= z as int <= FX_ONE as int,
                0 <= inner as int <= FX_QUARTER_PI + K_ATAN,
        ;
        assert(0 <= (z as int) * (inner as int)) by (nonlinear_arith)
            requires
                0 <= z as int,
                0 <= inner as int,
        ;
    }
    let r: u128 = (z * inner) / su;
    proof {
        lemma_div_bounds(
            (z as int) * (inner as int),
            FX_ONE as int,
            FX_QUARTER_PI + K_ATAN as int,
        );
    }
    r as i64
}

/// Fixed-point two-argument arctangent; the result is exactly `atan2_spec`
/// and lies in `(-pi, pi]`.
pub fn atan2_fx(y: i64, x: i64) -> (r: i64)
    ensures
        r == atan2_spec(y as int, x as int),
        -FX_PI < r <= FX_PI,
{
    let ay: u64 = if y >= 0 {
        y as u64
    } else {
        (-(y as i128)) as u64
    };
    let ax: u64 = if x >= 0 {
        x as u64
    } else {
        (-(x as i128)) as u64
    };
    let base: i64 = if ax == 0 && ay == 0 {
        0
    } else if ay <= ax {
        atan_frac_exec(ay, ax)
    } else {
        FX_HALF_PI - atan_frac_exec(ax, ay)
    };
    let quad: i64 = if x >= 0 {
        base
    } else {
        FX_PI - base
    };
    let signed: i64 = if y >= 0 {
        quad
    } else {
        -quad
    };
    if signed == -FX_PI {
        FX_PI
    } else {
        signed
    }
}

} // verus!
