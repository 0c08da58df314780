//! Fixed-point quantities and the integer arithmetic the simulation rests on.
//!
//! Lengths, speeds, times and factors are all counted in millionths: a value of
//! [`UNIT`] stands for one pixel, one pixel per frame, one second or the factor
//! one. Stored coordinates and velocity components stay within [`LIMIT`].

use vstd::prelude::*;
use vstd::arithmetic::div_mod::lemma_fundamental_div_mod;
use vstd::arithmetic::div_mod::lemma_fundamental_div_mod_converse;

verus! {

/// Fixed-point steps that make one whole.
pub const UNIT: i64 = 1_000_000;

/// Largest magnitude of a stored coordinate or velocity component.
pub const LIMIT: i64 = 1_000_000_000_000;

/// Largest magnitude of a viewport coordinate, an obstacle centre coordinate
/// or an obstacle radius.
pub const VIEW_LIMIT: i64 = 500_000_000_000;

/// The square of [`LIMIT`].
pub const LIMIT_SQ: i128 = 1_000_000_000_000_000_000_000_000;

/// Two to the power 56: above every root that [`isqrt`] returns.
pub const ROOT_BOUND: i128 = 0x100_0000_0000_0000;

/// Two to the power 112, the square of [`ROOT_BOUND`]: above every number
/// that [`isqrt`] takes.
pub const SQUARE_BOUND: i128 = 0x1_0000_0000_0000_0000_0000_0000_0000;

/// `v` lies in `[-bound, bound]`.
pub open spec fn within(v: int, bound: int) -> bool {
    -bound <= v <= bound
}

/// The value in `[-LIMIT, LIMIT]` nearest to `v`.
pub open spec fn confine(v: int) -> int {
    if v < -LIMIT {
        -(LIMIT as int)
    } else if v > LIMIT {
        LIMIT as int
    } else {
        v
    }
}

/// The value in `[lo, hi]` nearest to `v`; `lo` where the interval is empty.
pub open spec fn clamp(v: int, lo: int, hi: int) -> int {
    if v > hi && hi >= lo {
        hi
    } else if v < lo || hi < lo {
        lo
    } else {
        v
    }
}

/// `n / d` rounded away from zero, for a positive `d`.
pub open spec fn div_away(n: int, d: int) -> int {
    if n >= 0 {
        (n + d - 1) / d
    } else {
        -((-n + d - 1) / d)
    }
}

/// `s` is the integer part of the square root of `n`.
pub open spec fn is_sqrt_floor(n: int, s: int) -> bool {
    0 <= s && s * s <= n < (s + 1) * (s + 1)
}

/// The integer part of the square root of a non-negative `n`.
pub open spec fn sqrt_floor(n: int) -> int {
    choose|s: int| is_sqrt_floor(n, s)
}

/// A product is bounded by the product of its factors' bounds, counted in
/// multiples of [`LIMIT`].
pub proof fn lemma_product_bound(a: int, b: int, ka: int, kb: int)
    by (nonlinear_arith)
    requires
        within(a, ka * LIMIT),
        within(b, kb * LIMIT),
    ensures
        within(a * b, ka * kb * LIMIT_SQ),
{
    assert(LIMIT * LIMIT == LIMIT_SQ);
    assert(ka >= 0 && kb >= 0);
    assert((ka * LIMIT) * (kb * LIMIT) == ka * kb * LIMIT_SQ);
}

/// At most one integer is the integer square root of `n`.
pub proof fn lemma_sqrt_floor_unique(n: int, s: int, t: int)
    by (nonlinear_arith)
    requires
        is_sqrt_floor(n, s),
        is_sqrt_floor(n, t),
    ensures
        s == t,
{
    if s < t {
        assert((s + 1) * (s + 1) <= t * t);
    } else if t < s {
        assert((t + 1) * (t + 1) <= s * s);
    }
}

/// Whatever satisfies `is_sqrt_floor` is `sqrt_floor`.
pub proof fn lemma_sqrt_floor_is(n: int, s: int)
    requires
        is_sqrt_floor(n, s),
    ensures
        sqrt_floor(n) == s,
{
    lemma_sqrt_floor_unique(n, s, sqrt_floor(n));
}

/// Every non-negative integer has an integer square root.
pub proof fn lemma_sqrt_floor_exists(n: int)
    requires
        n >= 0,
    ensures
        is_sqrt_floor(n, sqrt_floor(n)),
    decreases n,
{
    if n == 0 {
        assert(is_sqrt_floor(0, 0));
    } else {
        lemma_sqrt_floor_exists(n - 1);
        let s = sqrt_floor(n - 1);
        assert(is_sqrt_floor(n, s) || is_sqrt_floor(n, s + 1)) by (nonlinear_arith)
            requires
                is_sqrt_floor(n - 1, s),
        ;
    }
}

/// Brings a wide intermediate result back into the stored range.
pub fn confine_exec(v: i128) -> (r: i64)
    ensures
        r == confine(v as int),
{
    if v < -(LIMIT as i128) {
        -LIMIT
    } else if v > LIMIT as i128 {
        LIMIT
    } else {
        v as i64
    }
}

/// Clamps `v` into `[lo, hi]`, or to `lo` where `hi < lo`.
pub fn clamp_exec(v: i64, lo: i64, hi: i64) -> (r: i64)
    ensures
        r == clamp(v as int, lo as int, hi as int),
{
    if v > hi && hi >= lo {
        hi
    } else if v < lo || hi < lo {
        lo
    } else {
        v
    }
}

/// Division that rounds toward negative infinity.
pub fn floor_div(n: i128, d: i128) -> (q: i128)
    requires
        d > 0,
        n > i128::MIN,
    ensures
        q == (n as int) / (d as int),
{
    if n >= 0 {
        n / d
    } else {
        let m: i128 = -n;
        let k: i128 = (m - 1) / d;
        proof {
            let rem: int = (m - 1) as int % (d as int);
            lemma_fundamental_div_mod((m - 1) as int, d as int);
            assert(n as int == (d as int) * (-k - 1) + (d - rem - 1)) by (nonlinear_arith)
                requires
                    n as int == -(m as int),
                    (m - 1) as int == (d as int) * (k as int) + rem,
            ;
            lemma_fundamental_div_mod_converse(n as int, d as int, (-k - 1) as int, d - rem - 1);
        }
        -k - 1
    }
}

/// Division that rounds away from zero.
pub fn div_away_exec(n: i128, d: i128) -> (q: i128)
    requires
        d > 0,
        n > i128::MIN,
        -i128::MAX + d <= n <= i128::MAX - d,
    ensures
        q == div_away(n as int, d as int),
{
    if n >= 0 {
        (n + d - 1) / d
    } else {
        -((-n + d - 1) / d)
    }
}

/// The integer part of the square root, by bisection.
pub fn isqrt(n: i128) -> (s: i128)
    requires
        0 <= n < SQUARE_BOUND,
    ensures
        s == sqrt_floor(n as int),
        is_sqrt_floor(n as int, s as int),
        s <= n,
{
    let mut lo: i128 = 0;
    let mut hi: i128 = ROOT_BOUND;
    assert(ROOT_BOUND * ROOT_BOUND == SQUARE_BOUND) by (nonlinear_arith)
        requires
            ROOT_BOUND == 0x100_0000_0000_0000,
            SQUARE_BOUND == 0x1_0000_0000_0000_0000_0000_0000_0000,
    ;
    while hi - lo > 1
        invariant
            0 <= lo < hi <= ROOT_BOUND,
            lo * lo <= n < hi * hi,
        decreases hi - lo,
    {
        let mid: i128 = lo + (hi - lo) / 2;
        assert(mid * mid < SQUARE_BOUND) by (nonlinear_arith)
            requires
                0 <= mid < ROOT_BOUND,
                ROOT_BOUND * ROOT_BOUND == SQUARE_BOUND,
        ;
        if mid * mid <= n {
            lo = mid;
        } else {
            hi = mid;
        }
    }
    proof {
        lemma_sqrt_floor_is(n as int, lo as int);
        assert(lo <= lo * lo) by (nonlinear_arith)
            requires
                lo >= 0,
        ;
    }
    lo
}

} // verus!
