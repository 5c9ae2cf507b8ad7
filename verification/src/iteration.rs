//! The adaptive iteration cap.
//!
//! Escape-time accuracy needs more iterations the deeper the zoom, but the
//! iteration count is the dominant per-pixel cost, so the cap follows an
//! inverse-square-root law and is bounded above: with the zoom in ticks,
//! `max_iter = min(ITER_NUM / isqrt(zoom), ITER_CAP)`, which is the formula
//! `min(100 / sqrt(zoom in units), 3000)` carried into fixed point
//! (`ITER_NUM == 100 * isqrt(SCALE)`).

use vstd::prelude::*;
use vstd::arithmetic::div_mod::lemma_div_is_ordered_by_denominator;
use vstd::arithmetic::mul::lemma_mul_upper_bound;
use crate::viewport::{ZOOM_MAX, ZOOM_MIN};

verus! {

/// Hard upper bound on per-pixel escape-time iterations.
pub const ITER_CAP: u64 = 3000;

/// Iterations per square root of the zoom in ticks: `100 * isqrt(SCALE)`.
pub const ITER_NUM: u64 = 100_000;

/// Integer square root (largest `r` with `r * r <= n`), defined recursively.
pub open spec fn isqrt_spec(n: nat) -> nat
    decreases n,
{
    if n == 0 {
        0
    } else {
        let p = isqrt_spec((n - 1) as nat);
        if (p + 1) * (p + 1) <= n {
            p + 1
        } else {
            p
        }
    }
}

/// The defining property of the integer square root.
pub proof fn lemma_isqrt_property(n: nat)
    ensures
        isqrt_spec(n) * isqrt_spec(n) <= n,
        n < (isqrt_spec(n) + 1) * (isqrt_spec(n) + 1),
    decreases n,
{
    if n == 0 {
        assert(isqrt_spec(0) == 0);
        assert(0 * 0 <= 0);
        assert(0 < (0 + 1) * (0 + 1)) by (nonlinear_arith);
    } else {
        lemma_isqrt_property((n - 1) as nat);
        let p = isqrt_spec((n - 1) as nat);
        assert(p * p <= n - 1);
        assert(n - 1 < (p + 1) * (p + 1));
        if (p + 1) * (p + 1) <= n {
            assert(isqrt_spec(n) == p + 1);
            assert((p + 2) * (p + 2) == (p + 1) * (p + 1) + 2 * p + 3) by (nonlinear_arith);
            assert(n <= (p + 1) * (p + 1));
        } else {
            assert(isqrt_spec(n) == p);
        }
    }
}

/// The defining property pins the square root down uniquely.
pub proof fn lemma_isqrt_unique(n: nat, r: nat)
    requires
        r * r <= n,
        n < (r + 1) * (r + 1),
    ensures
        isqrt_spec(n) == r,
{
    lemma_isqrt_property(n);
    let s = isqrt_spec(n);
    if s < r {
        assert((s + 1) * (s + 1) <= r * r) by (nonlinear_arith)
            requires
                s + 1 <= r,
        ;
    } else if s > r {
        assert((r + 1) * (r + 1) <= s * s) by (nonlinear_arith)
            requires
                r + 1 <= s,
        ;
    }
}

/// The integer square root is monotone.
pub proof fn lemma_isqrt_monotone(n1: nat, n2: nat)
    requires
        n1 <= n2,
    ensures
        isqrt_spec(n1) <= isqrt_spec(n2),
{
    lemma_isqrt_property(n1);
    lemma_isqrt_property(n2);
    let s1 = isqrt_spec(n1);
    let s2 = isqrt_spec(n2);
    if s2 < s1 {
        assert((s2 + 1) * (s2 + 1) <= s1 * s1) by (nonlinear_arith)
            requires
                s2 + 1 <= s1,
        ;
    }
}

/// Integer square root by upward search.
pub fn isqrt(n: u64) -> (r: u64)
    requires
        n <= 0xFFFF_FFFF,
    ensures
        r == isqrt_spec(n as nat),
        r * r <= n < (r + 1) * (r + 1),
{
    let mut r: u64 = 0;
    loop
        invariant
            n <= 0xFFFF_FFFF,
            r <= 0xFFFF,
            r * r <= n,
        ensures
            r * r <= n < (r + 1) * (r + 1),
        decreases 0x10000 - r,
    {
        let rp: u64 = r + 1;
        proof {
            lemma_mul_upper_bound(rp as int, 0x10000, rp as int, 0x10000);
        }
        let sq: u64 = rp * rp;
        if sq <= n {
            r = rp;
            proof {
                assert(r <= 0xFFFF) by (nonlinear_arith)
                    requires
                        r * r <= n,
                        n < 0x1_0000_0000,
                ;
            }
        } else {
            break ;
        }
    }
    proof {
        lemma_isqrt_unique(n as nat, r as nat);
    }
    r
}

/// Adaptive iteration cap for a zoom factor in ticks.
pub open spec fn max_iter_spec(zoom: int) -> int
    recommends
        1 <= zoom,
{
    let q = (ITER_NUM as int) / (isqrt_spec(zoom as nat) as int);
    if q > ITER_CAP as int {
        ITER_CAP as int
    } else {
        q
    }
}

/// Adaptive iteration cap for the current zoom: `min(ITER_NUM /
/// isqrt(zoom), ITER_CAP)` iterations.
pub fn max_iterations(zoom: i64) -> (r: u64)
    requires
        ZOOM_MIN <= zoom <= ZOOM_MAX,
    ensures
        r == max_iter_spec(zoom as int),
{
    let s: u64 = isqrt(zoom as u64);
    proof {
        if s == 0 {
            assert((s + 1) * (s + 1) == 1) by (nonlinear_arith)
                requires
                    s == 0u64,
            ;
        }
    }
    let q: u64 = ITER_NUM / s;
    if q > ITER_CAP {
        ITER_CAP
    } else {
        q
    }
}

/// The iteration cap never exceeds the hard cap and never falls below its
/// value at the largest supported zoom (44, the integer part of about 44.7).
pub proof fn lemma_max_iter_bounds(zoom: int)
    requires
        ZOOM_MIN as int <= zoom <= ZOOM_MAX as int,
    ensures
        44 <= max_iter_spec(zoom) <= ITER_CAP as int,
{
    lemma_isqrt_property(zoom as nat);
    lemma_isqrt_monotone(zoom as nat, ZOOM_MAX as nat);
    assert(2236nat * 2236nat <= 5_000_000nat) by (nonlinear_arith);
    assert(5_000_000nat < (2236nat + 1) * (2236nat + 1)) by (nonlinear_arith);
    lemma_isqrt_unique(ZOOM_MAX as nat, 2236nat);
    let s = isqrt_spec(zoom as nat) as int;
    if s == 0 {
        assert((isqrt_spec(zoom as nat) + 1) * (isqrt_spec(zoom as nat) + 1) == 1)
            by (nonlinear_arith)
            requires
                isqrt_spec(zoom as nat) == 0,
        ;
    }
    lemma_div_is_ordered_by_denominator(ITER_NUM as int, s, 2236);
    assert(ITER_NUM as int / 2236int == 44);
}

/// The iteration cap is non-increasing as the zoom grows.
pub proof fn lemma_max_iter_monotone(z1: int, z2: int)
    requires
        ZOOM_MIN as int <= z1 <= z2,
    ensures
        max_iter_spec(z2) <= max_iter_spec(z1),
{
    lemma_isqrt_property(z1 as nat);
    lemma_isqrt_monotone(z1 as nat, z2 as nat);
    let s1 = isqrt_spec(z1 as nat) as int;
    let s2 = isqrt_spec(z2 as nat) as int;
    if s1 == 0 {
        assert((isqrt_spec(z1 as nat) + 1) * (isqrt_spec(z1 as nat) + 1) == 1)
            by (nonlinear_arith)
            requires
                isqrt_spec(z1 as nat) == 0,
        ;
    }
    lemma_div_is_ordered_by_denominator(ITER_NUM as int, s1, s2);
}

} // verus!
