//! Fixed-point scalars.
//!
//! A scalar is an `i64` holding the represented value times [`SCALE`], so the
//! low sixteen bits are the fraction. Multiplication rescales by a truncating
//! (round toward zero) division, matching the usual fixed-point convention.

use vstd::prelude::*;
use vstd::arithmetic::div_mod::{
    lemma_div_by_multiple, lemma_div_is_ordered, lemma_div_pos_is_pos,
};

verus! {

/// One, as a fixed-point scalar: values are stored times this factor.
pub const SCALE: i64 = 65536;

/// The largest magnitude allowed of a domain corner handed to the sampler.
pub const CORNER_LIMIT: i64 = 0x8000_0000;

/// The largest magnitude allowed of a point coordinate handed to a grapher.
/// Grid coordinates stay within it whenever the domain corners stay within
/// [`CORNER_LIMIT`].
pub const POINT_LIMIT: i64 = 0x2_0000_0000;

/// Truncating (toward zero) division of `x` by `SCALE`.
pub open spec fn fx_div_scale(x: int) -> int {
    if x >= 0 {
        x / 65536
    } else {
        -((-x) / 65536)
    }
}

/// The fixed-point product of two scalars: the wide product, rescaled.
pub open spec fn fx_mul_val(a: int, b: int) -> int {
    fx_div_scale(a * b)
}

/// Rescaling shrinks magnitudes: a bound on `x` gives one on
/// `fx_div_scale(x)`.
pub proof fn lemma_fx_div_scale_bound(x: int, m: int)
    requires
        -m <= x <= m,
    ensures
        -(m / 65536) <= fx_div_scale(x) <= m / 65536,
{
    if x >= 0 {
        lemma_div_pos_is_pos(x, 65536);
        lemma_div_is_ordered(x, m, 65536);
    } else {
        lemma_div_pos_is_pos(-x, 65536);
        lemma_div_is_ordered(-x, m, 65536);
    }
}

/// Bounds on both factors give a bound on the fixed-point product.
pub proof fn lemma_fx_mul_val_bound(a: int, b: int, ma: int, mb: int)
    requires
        -ma <= a <= ma,
        -mb <= b <= mb,
    ensures
        -(ma * mb) <= a * b <= ma * mb,
        -((ma * mb) / 65536) <= fx_mul_val(a, b) <= (ma * mb) / 65536,
{
    assert(-(ma * mb) <= a * b <= ma * mb) by (nonlinear_arith)
        requires
            -ma <= a <= ma,
            -mb <= b <= mb,
    ;
    lemma_fx_div_scale_bound(a * b, ma * mb);
}

/// The integer `n` as a fixed-point scalar.
pub fn fx_from_int(n: i64) -> (r: i64)
    requires
        i64::MIN <= n * SCALE <= i64::MAX,
    ensures
        r == n * SCALE,
{
    n * SCALE
}

/// The integer part of scalar `v`, truncated toward zero.
pub fn fx_trunc(v: i64) -> (r: i64)
    ensures
        r == fx_div_scale(v as int),
{
    if v >= 0 {
        ((v as u64) / 65536u64) as i64
    } else {
        let m: u64 = (-(v as i128)) as u64;
        let q: u64 = m / 65536u64;
        -(q as i64)
    }
}

/// The fraction of its axis that grid index `i` of `size` covers, as a
/// fixed-point scalar in `[0, 1]`: `(i * SCALE) / size`, rounded down.
pub open spec fn spec_ratio(i: int, size: int) -> int {
    (i * 65536) / size
}

/// The domain coordinate of grid index `i` on an axis of `size` samples over
/// `[lo, hi)`: the fraction `i / size` of the way from `lo` to `hi`.
pub open spec fn spec_coord(i: int, size: int, lo: int, hi: int) -> int {
    fx_mul_val(spec_ratio(i, size), hi - lo) + lo
}

/// The mapping law at the axis ends: index `0` lands exactly on `lo`, and
/// index `size` (one past the last sampled index) exactly on `hi`.
pub proof fn lemma_coord_endpoints(size: int, lo: int, hi: int)
    requires
        size > 0,
    ensures
        spec_coord(0, size, lo, hi) == lo,
        spec_coord(size, size, lo, hi) == hi,
{
    let r: int = hi - lo;
    assert(spec_ratio(0, size) == 0) by {
        lemma_div_pos_is_pos(0int, size);
        lemma_div_is_ordered(0int * 65536, 0int, size);
    }
    assert(fx_mul_val(0, r) == 0);
    assert(spec_ratio(size, size) == 65536) by {
        lemma_div_by_multiple(65536, size);
        assert(size * 65536 == 65536 * size);
    }
    assert(fx_mul_val(65536, r) == r) by {
        if r >= 0 {
            lemma_div_by_multiple(r, 65536);
            assert(65536 * r == r * 65536);
        } else {
            lemma_div_by_multiple(-r, 65536);
            assert(-(65536 * r) == (-r) * 65536);
        }
    }
}

/// The domain coordinate of grid index `i` on an axis of `size` samples
/// over `[lo, hi)`.
pub fn coord(i: usize, size: usize, lo: i64, hi: i64) -> (c: i64)
    requires
        size > 0,
        i <= size,
        -CORNER_LIMIT <= lo <= CORNER_LIMIT,
        -CORNER_LIMIT <= hi <= CORNER_LIMIT,
    ensures
        c == spec_coord(i as int, size as int, lo as int, hi as int),
        -POINT_LIMIT <= c <= POINT_LIMIT,
{
    let t: u128 = ((i as u128) * 65536u128) / (size as u128);
    proof {
        lemma_div_pos_is_pos((i as int) * 65536, size as int);
        lemma_div_is_ordered((i as int) * 65536, (size as int) * 65536, size as int);
        lemma_div_by_multiple(65536, size as int);
        assert((size as int) * 65536 == 65536 * (size as int));
    }
    let tt: i64 = t as i64;
    let range: i64 = hi - lo;
    proof {
        lemma_fx_mul_val_bound(tt as int, range as int, 65536, 0x1_0000_0000);
    }
    let m: i64 = fx_mul(tt, range);
    m + lo
}

/// The integer square root of `n`: the largest `r` with `r * r <= n`.
pub open spec fn sqrt_floor(n: int) -> int
    decreases n,
{
    if n <= 0 {
        0
    } else {
        let p: int = sqrt_floor(n - 1);
        if (p + 1) * (p + 1) <= n {
            p + 1
        } else {
            p
        }
    }
}

/// `sqrt_floor(n)` is the floor of the square root: its square is at most
/// `n`, and the next square is beyond `n`.
pub proof fn lemma_sqrt_floor_bounds(n: int)
    requires
        n >= 0,
    ensures
        0 <= sqrt_floor(n),
        sqrt_floor(n) * sqrt_floor(n) <= n,
        n < (sqrt_floor(n) + 1) * (sqrt_floor(n) + 1),
    decreases n,
{
    if n > 0 {
        let p: int = sqrt_floor(n - 1);
        lemma_sqrt_floor_bounds(n - 1);
        if (p + 1) * (p + 1) <= n {
            assert(sqrt_floor(n) == p + 1);
            assert((p + 1) * (p + 1) < (p + 2) * (p + 2)) by (nonlinear_arith)
                requires
                    p >= 0,
            ;
        } else {
            assert(sqrt_floor(n) == p);
        }
    }
}

/// Only the floor of the square root sits between consecutive squares.
pub proof fn lemma_sqrt_floor_unique(n: int, r: int)
    requires
        0 <= r,
        r * r <= n,
        n < (r + 1) * (r + 1),
    ensures
        r == sqrt_floor(n),
{
    let s: int = sqrt_floor(n);
    lemma_sqrt_floor_bounds(n);
    if r < s {
        assert((r + 1) * (r + 1) <= s * s) by (nonlinear_arith)
            requires
                0 <= r < s,
        ;
    }
    if s < r {
        assert((s + 1) * (s + 1) <= r * r) by (nonlinear_arith)
            requires
                0 <= s < r,
        ;
    }
}

/// The integer square root of `n`, by bisection.
pub fn isqrt(n: u128) -> (r: u64)
    ensures
        r as int == sqrt_floor(n as int),
{
    let mut lo: u128 = 0;
    let mut hi: u128 = 0x1_0000_0000_0000_0000;
    while hi - lo > 1
        invariant
            lo < hi <= 0x1_0000_0000_0000_0000,
            (lo as int) * (lo as int) <= n as int,
            (n as int) < (hi as int) * (hi as int),
        decreases hi - lo,
    {
        let mid: u128 = lo + (hi - lo) / 2;
        proof {
            assert((mid as int) * (mid as int) <= 0xffff_ffff_ffff_ffff * 0xffff_ffff_ffff_ffff)
                by (nonlinear_arith)
                requires
                    0 <= mid <= 0xffff_ffff_ffff_ffff,
            ;
        }
        let sq: u128 = mid * mid;
        if sq <= n {
            lo = mid;
        } else {
            hi = mid;
        }
    }
    proof {
        lemma_sqrt_floor_unique(n as int, lo as int);
    }
    lo as u64
}

/// The fixed-point product of `a` and `b`.
pub fn fx_mul(a: i64, b: i64) -> (r: i64)
    requires
        i64::MIN <= fx_mul_val(a as int, b as int) <= i64::MAX,
    ensures
        r == fx_mul_val(a as int, b as int),
{
    proof {
        assert(-0x4000_0000_0000_0000_0000_0000_0000_0000
            <= (a as int) * (b as int)
            <= 0x4000_0000_0000_0000_0000_0000_0000_0000) by (nonlinear_arith)
            requires
                i64::MIN <= a <= i64::MAX,
                i64::MIN <= b <= i64::MAX,
        ;
    }
    let p: i128 = (a as i128) * (b as i128);
    if p >= 0 {
        let q: u128 = (p as u128) / 65536u128;
        q as i64
    } else {
        let m: u128 = (-p) as u128;
        let q: u128 = m / 65536u128;
        let n: i128 = -(q as i128);
        n as i64
    }
}

} // verus!
