//! Integer square root and small powers, the arithmetic behind the
//! brightness-emphasis weighting.

use vstd::prelude::*;

verus! {

/// The integer square root: the largest `r` with `r * r <= n` (and 0 for
/// negative arguments).
pub open spec fn spec_isqrt(n: int) -> int
    decreases n,
{
    if n <= 0 {
        0
    } else {
        let r = spec_isqrt(n - 1);
        if (r + 1) * (r + 1) <= n {
            r + 1
        } else {
            r
        }
    }
}

/// The ninth power, the emphasis exponent doubled so that a square root can
/// finish the job.
pub open spec fn spec_pow9(x: int) -> int {
    x * x * x * x * x * x * x * x * x
}

/// `spec_isqrt(n)` is the floor of the square root of `n`.
pub proof fn lemma_isqrt_bounds(n: int)
    requires
        0 <= n,
    ensures
        0 <= spec_isqrt(n),
        spec_isqrt(n) * spec_isqrt(n) <= n,
        n < (spec_isqrt(n) + 1) * (spec_isqrt(n) + 1),
    decreases n,
{
    if n == 0 {
    } else {
        lemma_isqrt_bounds(n - 1);
        let r = spec_isqrt(n - 1);
        if (r + 1) * (r + 1) <= n {
            assert(spec_isqrt(n) == r + 1);
            assert(spec_isqrt(n) * spec_isqrt(n) <= n && n < (spec_isqrt(n) + 1) * (spec_isqrt(
                n,
            ) + 1)) by (nonlinear_arith)
                requires
                    spec_isqrt(n) == r + 1,
                    (r + 1) * (r + 1) <= n,
                    n - 1 < (r + 1) * (r + 1),
                    0 <= r,
            ;
        } else {
            assert(spec_isqrt(n) == r);
            assert(spec_isqrt(n) * spec_isqrt(n) <= n && n < (spec_isqrt(n) + 1) * (spec_isqrt(
                n,
            ) + 1)) by (nonlinear_arith)
                requires
                    spec_isqrt(n) == r,
                    r * r <= n - 1,
                    !((r + 1) * (r + 1) <= n),
                    1 <= n,
                    0 <= r,
            ;
        }
    }
}

/// Any `s` squeezed between consecutive squares around `n` is the integer
/// square root of `n`.
pub proof fn lemma_isqrt_unique(n: int, s: int)
    requires
        0 <= s,
        s * s <= n,
        n < (s + 1) * (s + 1),
    ensures
        s == spec_isqrt(n),
{
    lemma_isqrt_bounds(n);
    let r = spec_isqrt(n);
    assert(s == r) by (nonlinear_arith)
        requires
            s * s <= n,
            n < (s + 1) * (s + 1),
            r * r <= n,
            n < (r + 1) * (r + 1),
            0 <= s,
            0 <= r,
    ;
}

/// The square root respects the order of its arguments.
pub proof fn lemma_isqrt_monotone(a: int, b: int)
    requires
        0 <= a <= b,
    ensures
        spec_isqrt(a) <= spec_isqrt(b),
{
    lemma_isqrt_bounds(a);
    lemma_isqrt_bounds(b);
    let ra = spec_isqrt(a);
    let rb = spec_isqrt(b);
    assert(ra <= rb) by (nonlinear_arith)
        requires
            ra * ra <= a,
            a <= b,
            b < (rb + 1) * (rb + 1),
            0 <= ra,
            0 <= rb,
    ;
}

/// Computes the integer square root by binary search.
pub fn isqrt(n: u128) -> (r: u64)
    ensures
        r == spec_isqrt(n as int),
{
    let mut lo: u128 = 0;
    let mut hi: u128 = 0x1_0000_0000_0000_0000;
    while lo + 1 < hi
        invariant
            lo < hi <= 0x1_0000_0000_0000_0000,
            lo * lo <= n,
            n < hi * hi,
        decreases hi - lo,
    {
        let mid: u128 = lo + (hi - lo) / 2;
        proof {
            assert(lo < mid < hi);
            assert(mid * mid < 0x1_0000_0000_0000_0000 * 0x1_0000_0000_0000_0000)
                by (nonlinear_arith)
                requires
                    0 <= mid < 0x1_0000_0000_0000_0000,
            ;
        }
        let sq: u128 = mid * mid;
        if sq <= n {
            lo = mid;
        } else {
            hi = mid;
        }
    }
    proof {
        assert(n < (lo + 1) * (lo + 1)) by (nonlinear_arith)
            requires
                n < hi * hi,
                hi == lo + 1,
        ;
        lemma_isqrt_unique(n as int, lo as int);
    }
    lo as u64
}

/// Computes the ninth power of a brightness level; `x` never exceeds 255, so
/// the result stays under `2^72`.
pub fn pow9(x: u32) -> (r: u128)
    requires
        x <= 255,
    ensures
        r == spec_pow9(x as int),
        r <= 4558916353692287109375,
{
    let x1: u128 = x as u128;
    proof {
        assert(x1 * x1 <= 65025) by (nonlinear_arith)
            requires
                0 <= x1 <= 255,
        ;
    }
    let x2: u128 = x1 * x1;
    proof {
        assert(x2 * x2 <= 4228250625) by (nonlinear_arith)
            requires
                0 <= x2 <= 65025,
        ;
    }
    let x4: u128 = x2 * x2;
    proof {
        assert(x4 * x4 <= 17878103347812890625) by (nonlinear_arith)
            requires
                0 <= x4 <= 4228250625,
        ;
    }
    let x8: u128 = x4 * x4;
    proof {
        assert(x8 * x1 <= 4558916353692287109375) by (nonlinear_arith)
            requires
                0 <= x8 <= 17878103347812890625,
                0 <= x1 <= 255,
        ;
        assert(x8 * x1 == spec_pow9(x as int)) by (nonlinear_arith)
            requires
                x1 == x,
                x2 == x1 * x1,
                x4 == x2 * x2,
                x8 == x4 * x4,
                spec_pow9(x as int) == (x as int) * (x as int) * (x as int) * (x as int) * (
                x as int) * (x as int) * (x as int) * (x as int) * (x as int),
        ;
    }
    x8 * x1
}

} // verus!
