//! Fixed-point evaluation of the standard normal density.
//!
//! Verified code cannot use machine floating point, so likelihoods are held
//! as integers scaled by `FIX_ONE`: a stored value `v` stands for the real
//! number `v / FIX_ONE`. The exponential is computed by binary decomposition
//! of the exponent in steps of 2^-20, squaring a base decay factor; every
//! intermediate value stays at or below `FIX_ONE`, so no operation overflows.

use vstd::prelude::*;
use vstd::arithmetic::div_mod::{lemma_div_is_ordered, lemma_div_multiples_vanish};

verus! {

/// Fixed-point scale: a stored value `v` represents `v / FIX_ONE`.
pub const FIX_ONE: u64 = 1_000_000_000_000_000_000;

/// floor(e^(-2^-20) * FIX_ONE): the decay factor for one exponent step.
pub const EXP_STEP: u64 = 999_999_046_326_138_340;

/// floor(FIX_ONE / sqrt(2 * pi)): the standard normal density at zero.
pub const INV_SQRT_2PI: u64 = 398_942_280_401_432_677;

/// Fixed-point product, rounded toward zero.
pub open spec fn spec_fixmul(a: int, b: int) -> int {
    a * b / (FIX_ONE as int)
}

/// Multiplies two fixed-point values that are at most one.
pub fn fixmul(a: u64, b: u64) -> (r: u64)
    requires
        a <= FIX_ONE,
        b <= FIX_ONE,
    ensures
        r == spec_fixmul(a as int, b as int),
        r <= a,
        r <= b,
{
    proof {
        assert((a as int) * (b as int) <= (a as int) * (FIX_ONE as int)) by (nonlinear_arith)
            requires b <= FIX_ONE, 0 <= a;
        assert((a as int) * (b as int) <= (b as int) * (FIX_ONE as int)) by (nonlinear_arith)
            requires a <= FIX_ONE, 0 <= b;
        lemma_div_is_ordered((a as int) * (b as int), (a as int) * (FIX_ONE as int), FIX_ONE as int);
        lemma_div_is_ordered((a as int) * (b as int), (b as int) * (FIX_ONE as int), FIX_ONE as int);
        lemma_div_multiples_vanish(a as int, FIX_ONE as int);
        lemma_div_multiples_vanish(b as int, FIX_ONE as int);
    }
    let p: u128 = (a as u128) * (b as u128);
    (p / (FIX_ONE as u128)) as u64
}

/// One run of the square-and-multiply recursion: multiplies `acc` by the
/// `m`-th power of the decay factor `f`, in fixed point.
pub open spec fn spec_exp_product(acc: int, f: int, m: nat) -> int
    decreases m,
{
    if m == 0 {
        acc
    } else {
        spec_exp_product(
            if m % 2 == 1 {
                spec_fixmul(acc, f)
            } else {
                acc
            },
            spec_fixmul(f, f),
            m / 2,
        )
    }
}

/// e^(-m * 2^-20) in fixed point.
pub open spec fn spec_exp_neg(m: nat) -> int {
    spec_exp_product(FIX_ONE as int, EXP_STEP as int, m)
}

/// Computes e^(-m * 2^-20) in fixed point by binary decomposition of `m`.
pub fn exp_neg_fixed(m: u128) -> (r: u64)
    ensures
        r == spec_exp_neg(m as nat),
        r <= FIX_ONE,
{
    let mut acc: u64 = FIX_ONE;
    let mut f: u64 = EXP_STEP;
    let mut mm: u128 = m;
    while mm > 0
        invariant
            acc <= FIX_ONE,
            f <= FIX_ONE,
            spec_exp_product(acc as int, f as int, mm as nat) == spec_exp_neg(m as nat),
        decreases mm,
    {
        if mm % 2 == 1 {
            acc = fixmul(acc, f);
        }
        f = fixmul(f, f);
        mm = mm / 2;
    }
    acc
}

/// The scaled Gaussian likelihood of a calendar offset `diff` under combined
/// variance `var`: the standard normal density at z, where z^2 = diff^2 / var,
/// with the exponent z^2 / 2 held in units of 2^-20.
pub open spec fn spec_point_density(diff: int, var: int) -> int
    recommends
        var >= 1,
{
    spec_fixmul(INV_SQRT_2PI as int, spec_exp_neg((diff * diff * 524288 / var) as nat))
}

/// At a zero deviate the scaled density is exactly the fixed-point
/// rendering of 1/sqrt(2*pi), the standard normal density at its mode.
pub proof fn lemma_density_at_zero(var: int)
    requires
        var >= 1,
    ensures
        spec_point_density(0, var) == INV_SQRT_2PI,
{
    assert(spec_exp_neg(0) == FIX_ONE as int);
    lemma_div_multiples_vanish(INV_SQRT_2PI as int, FIX_ONE as int);
}

/// The density depends on the deviate only through its square, so it is
/// symmetric in the sign of the calendar offset.
pub proof fn lemma_density_symmetric(diff: int, var: int)
    requires
        var >= 1,
    ensures
        spec_point_density(-diff, var) == spec_point_density(diff, var),
{
    assert((-diff) * (-diff) == diff * diff) by (nonlinear_arith);
}

/// Evaluates the standard normal density, scaled by `FIX_ONE`, of the
/// standardized deviate z with z^2 = diff^2 / var.
pub fn point_density(diff: i64, var: u64) -> (d: u64)
    requires
        var >= 1,
        -0x1_0000_0000 <= diff <= 0x1_0000_0000,
    ensures
        d == spec_point_density(diff as int, var as int),
        d <= INV_SQRT_2PI,
{
    proof {
        assert(0 <= (diff as int) * (diff as int) <= 0x1_0000_0000_0000_0000) by (nonlinear_arith)
            requires -0x1_0000_0000 <= diff <= 0x1_0000_0000;
    }
    let dd: i128 = (diff as i128) * (diff as i128);
    let num: u128 = (dd as u128) * 524288u128;
    let m: u128 = num / (var as u128);
    let e = exp_neg_fixed(m);
    fixmul(INV_SQRT_2PI, e)
}

} // verus!
