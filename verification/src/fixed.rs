//! Fixed-point scalars: the unit of length, toroidal wrapping, floor
//! division and integer square roots.

use vstd::prelude::*;
use vstd::arithmetic::div_mod::*;

verus! {

/// Number of fixed-point steps in one unit of space.  It is `2^6 * 3^5 * 5^5`,
/// so thirds down to the finest subdivision, the march step and the
/// per-frame dolly step are all whole numbers of steps.
pub const UNIT: i64 = 48_600_000;

/// The coordinate `v` reduced to the periodic domain `[0, UNIT)`.
pub open spec fn wrapped(v: int) -> int {
    v % (UNIT as int)
}

/// Reduces a coordinate to `[0, UNIT)` with wrap-around: the remainder, which
/// may be negative, moved up by one unit and reduced again.
pub fn wrap(v: i64) -> (r: i64)
    ensures
        r == wrapped(v as int),
        0 <= r < UNIT,
{
    let m: i64 = v % UNIT;
    (m + UNIT) % UNIT
}

/// Wrapping is periodic: moving a coordinate by a whole number of units
/// does not change where it lands.
pub proof fn lemma_wrapped_periodic(v: int, k: int)
    ensures
        wrapped(v + k * UNIT) == wrapped(v),
{
}

/// Wrapping a sum is the same as wrapping the sum of the wrapped terms.
pub proof fn lemma_wrapped_sum(a: int, b: int)
    ensures
        wrapped(wrapped(a) + wrapped(b)) == wrapped(a + b),
        wrapped(wrapped(a) + b) == wrapped(a + b),
        wrapped(wrapped(a)) == wrapped(a),
{
}

/// How the quotient rounded down follows from the quotient rounded toward
/// zero: one less exactly when the remainder is negative.
proof fn lemma_floor_from_truncated(a: int, d: int, q: int, m: int)
    requires
        d > 0,
        a == q * d + m,
        -d < m < d,
        a >= 0 ==> m >= 0,
        a < 0 ==> m <= 0,
    ensures
        m < 0 ==> a / d == q - 1 && a <= q - 1,
        m >= 0 ==> a / d == q,
{
    if m < 0 {
        assert(a == (q - 1) * d + (m + d)) by (nonlinear_arith)
            requires
                a == q * d + m,
        ;
        lemma_fundamental_div_mod_converse(a, d, q - 1, m + d);
        assert(a <= q - 1) by (nonlinear_arith)
            requires
                a == q * d + m,
                -d < m < 0,
                a < 0,
                d > 0,
        ;
    } else {
        lemma_fundamental_div_mod_converse(a, d, q, m);
    }
}

/// What the machine's division and remainder give for a negative dividend.
proof fn lemma_truncated_parts(a: int, d: int, q: int, m: int)
    requires
        d > 0,
        a < 0,
        q == -((-a) / d),
        m == -((-a) % d),
    ensures
        a == q * d + m,
        -d < m <= 0,
{
    let pos: int = -a;
    lemma_fundamental_div_mod(pos, d);
    lemma_mod_bound(pos, d);
    assert(a == q * d + m) by (nonlinear_arith)
        requires
            pos == d * (pos / d) + pos % d,
            a == -pos,
            q == -(pos / d),
            m == -(pos % d),
    ;
}

/// Quotient of `a` by `d`, rounded toward negative infinity.
pub fn div_floor(a: i64, d: i64) -> (q: i64)
    requires
        d > 0,
    ensures
        q == (a as int) / (d as int),
{
    let q: i64 = a / d;
    let m: i64 = a % d;
    proof {
        if a < 0 {
            lemma_truncated_parts(a as int, d as int, q as int, m as int);
        } else {
            lemma_fundamental_div_mod(a as int, d as int);
            lemma_mod_bound(a as int, d as int);
            assert(a == q * d + m) by (nonlinear_arith)
                requires
                    a == d * q + m,
            ;
        }
        lemma_floor_from_truncated(a as int, d as int, q as int, m as int);
    }
    if m < 0 {
        q - 1
    } else {
        q
    }
}

/// Quotient of `a` by `d`, rounded toward negative infinity, on wide
/// integers.
pub fn div_floor_wide(a: i128, d: i128) -> (q: i128)
    requires
        d > 0,
    ensures
        q == (a as int) / (d as int),
{
    let q: i128 = a / d;
    let m: i128 = a % d;
    proof {
        if a < 0 {
            lemma_truncated_parts(a as int, d as int, q as int, m as int);
        } else {
            lemma_fundamental_div_mod(a as int, d as int);
            lemma_mod_bound(a as int, d as int);
            assert(a == q * d + m) by (nonlinear_arith)
                requires
                    a == d * q + m,
            ;
        }
        lemma_floor_from_truncated(a as int, d as int, q as int, m as int);
    }
    if m < 0 {
        q - 1
    } else {
        q
    }
}

/// `r` is the integer square root of `n`: the largest integer whose square
/// does not exceed `n`.
pub open spec fn is_sqrt_floor(n: int, r: int) -> bool {
    0 <= r && r * r <= n < (r + 1) * (r + 1)
}

/// Squaring preserves order on the non-negative integers.
pub proof fn lemma_square_monotonic(a: int, b: int)
    requires
        0 <= a <= b,
    ensures
        a * a <= b * b,
{
    assert(a * a <= b * b) by (nonlinear_arith)
        requires
            0 <= a <= b,
    ;
}

/// A number has only one integer square root.
pub proof fn lemma_sqrt_floor_unique(n: int, r1: int, r2: int)
    requires
        is_sqrt_floor(n, r1),
        is_sqrt_floor(n, r2),
    ensures
        r1 == r2,
{
    if r1 < r2 {
        lemma_square_monotonic(r1 + 1, r2);
    } else if r2 < r1 {
        lemma_square_monotonic(r2 + 1, r1);
    }
}

/// The integer square root of `n`.
pub open spec fn sqrt_floor(n: int) -> int {
    choose|r: int| is_sqrt_floor(n, r)
}

/// Whoever exhibits the integer square root has found `sqrt_floor`.
pub proof fn lemma_sqrt_floor_is(n: int, r: int)
    requires
        is_sqrt_floor(n, r),
    ensures
        sqrt_floor(n) == r,
{
    lemma_sqrt_floor_unique(n, r, sqrt_floor(n));
}

proof fn lemma_sqrt_search(n: int, r: int) -> (found: int)
    requires
        0 <= r,
        r * r <= n,
    ensures
        is_sqrt_floor(n, found),
    decreases n - r,
{
    if (r + 1) * (r + 1) > n {
        r
    } else {
        assert(r + 1 <= (r + 1) * (r + 1)) by (nonlinear_arith)
            requires
                0 <= r,
        ;
        lemma_sqrt_search(n, r + 1)
    }
}

/// Every non-negative integer has an integer square root, and it is zero
/// only for zero.
pub proof fn lemma_sqrt_floor_exists(n: int)
    requires
        0 <= n,
    ensures
        is_sqrt_floor(n, sqrt_floor(n)),
        sqrt_floor(n) == 0 <==> n == 0,
{
    let found: int = lemma_sqrt_search(n, 0);
    let r: int = sqrt_floor(n);
    assert(r == 0 <==> n == 0) by (nonlinear_arith)
        requires
            0 <= r,
            r * r <= n < (r + 1) * (r + 1),
    ;
}

/// Integer square root by bisection.
pub fn isqrt(n: u128) -> (r: u64)
    ensures
        r == sqrt_floor(n as int),
        is_sqrt_floor(n as int, r as int),
{
    let mut lo: u128 = 0;
    let mut hi: u128 = 0x1_0000_0000_0000_0000;
    assert(0x1_0000_0000_0000_0000int * 0x1_0000_0000_0000_0000int > n) by (nonlinear_arith)
        requires
            n <= 0xffff_ffff_ffff_ffff_ffff_ffff_ffff_ffff,
    ;
    while hi - lo > 1
        invariant
            lo < hi <= 0x1_0000_0000_0000_0000,
            lo * lo <= n < hi * hi,
        decreases hi - lo,
    {
        let mid: u128 = lo + (hi - lo) / 2;
        assert(mid * mid < 0x1_0000_0000_0000_0000int * 0x1_0000_0000_0000_0000int)
            by (nonlinear_arith)
            requires
                0 <= mid < 0x1_0000_0000_0000_0000,
        ;
        if mid * mid <= n {
            lo = mid;
        } else {
            hi = mid;
        }
    }
    proof {
        lemma_sqrt_floor_is(n as int, lo as int);
    }
    lo as u64
}

} // verus!
