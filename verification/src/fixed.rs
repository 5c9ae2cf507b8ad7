//! Fixed-point scalars.
//!
//! Every world-space coordinate, cursor offset and zoom factor in the viewer
//! is an `i64` counting millionths of a world unit (`SCALE` ticks per unit).
//! A product of two such scalars is scaled back down by `SCALE`, rounding
//! toward zero, so the whole transformation model is exact integer
//! arithmetic.

use vstd::prelude::*;
use vstd::arithmetic::div_mod::{
    lemma_div_is_ordered, lemma_div_multiples_vanish, lemma_div_pos_is_pos,
};
use vstd::arithmetic::mul::{
    lemma_mul_cancels_negatives, lemma_mul_nonnegative,
    lemma_mul_unary_negation, lemma_mul_upper_bound,
};

verus! {

/// Number of fixed-point ticks in one world unit.
pub const SCALE: i64 = 1_000_000;

/// Largest magnitude admitted for a coordinate, cursor offset or delta
/// (one million world units), chosen so that all intermediate products in
/// the viewport math stay well inside the machine integer ranges.
pub const COORD_LIMIT: i64 = 1_000_000_000_000;

/// Division by a positive divisor that rounds toward zero.
pub open spec fn tdiv(a: int, d: int) -> int
    recommends
        1 <= d,
{
    if a >= 0 {
        a / d
    } else {
        -((-a) / d)
    }
}

/// Product of two fixed-point scalars, scaled back into ticks.
pub open spec fn fx_mul(a: int, b: int) -> int {
    tdiv(a * b, SCALE as int)
}

/// Truncating division preserves order.
pub proof fn lemma_tdiv_is_ordered(x: int, y: int, d: int)
    requires
        x <= y,
        1 <= d,
    ensures
        tdiv(x, d) <= tdiv(y, d),
{
    if x >= 0 {
        lemma_div_is_ordered(x, y, d);
    } else if y < 0 {
        lemma_div_is_ordered(-y, -x, d);
    } else {
        lemma_div_pos_is_pos(-x, d);
        lemma_div_pos_is_pos(y, d);
    }
}

/// Truncating division is odd: negating the dividend negates the quotient.
pub proof fn lemma_tdiv_neg(a: int, d: int)
    requires
        1 <= d,
    ensures
        tdiv(-a, d) == -tdiv(a, d),
{
    if a == 0 {
        assert(tdiv(0, d) == 0int / d);
        lemma_div_multiples_vanish(0, d);
    }
}

/// Dividing an exact multiple of the divisor recovers the multiplier.
pub proof fn lemma_tdiv_multiple(m: int, d: int)
    requires
        1 <= d,
    ensures
        tdiv(m * d, d) == m,
{
    if m >= 0 {
        lemma_mul_nonnegative(m, d);
        lemma_div_multiples_vanish(m, d);
        assert(d * m == m * d) by (nonlinear_arith);
    } else {
        assert(m * d < 0) by (nonlinear_arith)
            requires
                m < 0,
                1 <= d,
        ;
        lemma_mul_unary_negation(m, d);
        assert(-(m * d) == (-m) * d);
        lemma_mul_nonnegative(-m, d);
        lemma_div_multiples_vanish(-m, d);
        assert(d * (-m) == (-m) * d) by (nonlinear_arith);
    }
}

/// A fixed-point product of bounded scalars is itself bounded.
pub proof fn lemma_fx_mul_bound(a: int, b: int, ma: int, mb: int)
    requires
        -ma <= a <= ma,
        -mb <= b <= mb,
        0 <= ma,
        0 <= mb,
    ensures
        -tdiv(ma * mb, SCALE as int) <= fx_mul(a, b) <= tdiv(ma * mb, SCALE as int),
{
    assert(-(ma * mb) <= a * b <= ma * mb) by (nonlinear_arith)
        requires
            -ma <= a <= ma,
            -mb <= b <= mb,
            0 <= ma,
            0 <= mb,
    ;
    lemma_tdiv_is_ordered(a * b, ma * mb, SCALE as int);
    lemma_tdiv_is_ordered(-(ma * mb), a * b, SCALE as int);
    lemma_tdiv_neg(ma * mb, SCALE as int);
}

/// Scaling by exactly one unit is the identity.
pub proof fn lemma_fx_mul_unit(a: int)
    ensures
        fx_mul(a, SCALE as int) == a,
{
    lemma_tdiv_multiple(a, SCALE as int);
}

/// Scaling by a whole number of units multiplies exactly, with no rounding.
pub proof fn lemma_fx_mul_whole_units(a: int, k: int)
    ensures
        fx_mul(a, k * (SCALE as int)) == a * k,
{
    assert(a * (k * (SCALE as int)) == (a * k) * (SCALE as int)) by (nonlinear_arith);
    lemma_tdiv_multiple(a * k, SCALE as int);
}

/// Runtime fixed-point multiplication: `(a * b) / SCALE`, rounded toward
/// zero, computed on unsigned magnitudes so no intermediate overflows.
pub fn mul_fx(a: i64, b: i64) -> (r: i64)
    requires
        -COORD_LIMIT <= a <= COORD_LIMIT,
        -COORD_LIMIT <= b <= COORD_LIMIT,
    ensures
        r == fx_mul(a as int, b as int),
{
    let neg: bool = (a < 0) != (b < 0);
    let ma: u64 = if a < 0 { (-a) as u64 } else { a as u64 };
    let mb: u64 = if b < 0 { (-b) as u64 } else { b as u64 };
    proof {
        lemma_mul_upper_bound(ma as int, COORD_LIMIT as int, mb as int, COORD_LIMIT as int);
    }
    let p: u128 = (ma as u128) * (mb as u128);
    let q: u128 = p / (SCALE as u128);
    proof {
        lemma_mul_nonnegative(ma as int, mb as int);
        lemma_div_is_ordered(
            p as int,
            1_000_000_000_000_000_000_000_000int,
            SCALE as int,
        );
        lemma_div_multiples_vanish(1_000_000_000_000_000_000int, SCALE as int);
        assert(q <= 1_000_000_000_000_000_000u128);
        if a >= 0 && b >= 0 {
            assert(a as int * b as int == ma as int * mb as int);
        } else if a < 0 && b < 0 {
            lemma_mul_cancels_negatives(a as int, b as int);
            assert(a as int * b as int == ma as int * mb as int);
        } else if a < 0 {
            lemma_mul_unary_negation(a as int, b as int);
            assert(a as int * b as int == -(ma as int * mb as int));
        } else {
            lemma_mul_unary_negation(a as int, b as int);
            assert(a as int * b as int == -(ma as int * mb as int));
        }
    }
    if neg {
        proof {
            if p > 0 {
                assert(a as int * b as int == -(ma as int * mb as int));
            } else {
                assert(ma as int * mb as int == 0);
                lemma_div_multiples_vanish(0, SCALE as int);
            }
        }
        -(q as i64)
    } else {
        q as i64
    }
}

} // verus!
