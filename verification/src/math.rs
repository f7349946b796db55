//! Integer square roots, rounded up.

use vstd::prelude::*;

verus! {

/// `r` is the square root of `n` rounded up: the least natural number whose
/// square reaches `n`.
pub open spec fn is_ceil_sqrt(n: nat, r: nat) -> bool {
    &&& n <= r * r
    &&& r == 0 || (r - 1) * (r - 1) < n
}

/// The square root of `n`, rounded up.
pub open spec fn ceil_sqrt(n: nat) -> nat
    decreases n,
{
    if n == 0 {
        0
    } else {
        let below = ceil_sqrt((n - 1) as nat);
        if below * below < n {
            below + 1
        } else {
            below
        }
    }
}

/// Squaring keeps the order of natural numbers.
pub proof fn lemma_square_monotonic(a: nat, b: nat)
    requires
        a <= b,
    ensures
        a * a <= b * b,
{
    assert(a * a <= b * b) by (nonlinear_arith)
        requires
            a <= b,
    ;
}

/// `ceil_sqrt(n)` is the square root of `n` rounded up.
pub proof fn lemma_ceil_sqrt_is(n: nat)
    ensures
        is_ceil_sqrt(n, ceil_sqrt(n)),
    decreases n,
{
    if n > 0 {
        lemma_ceil_sqrt_is((n - 1) as nat);
        let below = ceil_sqrt((n - 1) as nat);
        if below * below < n {
            assert(below * below == n - 1);
            assert((below + 1) * (below + 1) >= n) by (nonlinear_arith)
                requires
                    below * below == n - 1,
            ;
        }
    }
}

/// Only one number is the square root of `n` rounded up.
pub proof fn lemma_ceil_sqrt_unique(n: nat, a: nat, b: nat)
    requires
        is_ceil_sqrt(n, a),
        is_ceil_sqrt(n, b),
    ensures
        a == b,
{
    if a < b {
        lemma_square_monotonic(a, (b - 1) as nat);
    } else if b < a {
        lemma_square_monotonic(b, (a - 1) as nat);
    }
}

/// A number whose square reaches `n` is no smaller than `ceil_sqrt(n)`.
pub proof fn lemma_ceil_sqrt_least(n: nat, s: nat)
    requires
        n <= s * s,
    ensures
        ceil_sqrt(n) <= s,
{
    lemma_ceil_sqrt_is(n);
    let r = ceil_sqrt(n);
    if s < r {
        lemma_square_monotonic(s, (r - 1) as nat);
    }
}

/// Computes the square root of `n`, rounded up, by bisection.
pub fn ceil_sqrt_u128(n: u128) -> (root: u128)
    ensures
        root == ceil_sqrt(n as nat),
        root <= 0x1_0000_0000_0000_0000,
{
    let mut lo: u128 = 0;
    let mut hi: u128 = 0x1_0000_0000_0000_0000;
    assert(n <= hi * hi) by (nonlinear_arith)
        requires
            hi == 0x1_0000_0000_0000_0000,
            n <= u128::MAX,
    ;
    while lo < hi
        invariant
            lo <= hi <= 0x1_0000_0000_0000_0000,
            lo == 0 || (lo - 1) * (lo - 1) < n,
            n <= hi * hi,
        decreases hi - lo,
    {
        let mid: u128 = lo + (hi - lo) / 2;
        assert(mid * mid <= 0xffff_ffff_ffff_ffff * 0xffff_ffff_ffff_ffff) by (nonlinear_arith)
            requires
                0 <= mid <= 0xffff_ffff_ffff_ffff,
        ;
        if mid * mid >= n {
            hi = mid;
        } else {
            lo = mid + 1;
        }
    }
    proof {
        lemma_ceil_sqrt_is(n as nat);
        lemma_ceil_sqrt_unique(n as nat, lo as nat, ceil_sqrt(n as nat));
    }
    lo
}

} // verus!
