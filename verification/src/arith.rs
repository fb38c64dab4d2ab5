//! Whole-number square roots, rounded up.

use vstd::prelude::*;

verus! {

/// `r` is the least whole number whose square reaches `n`.
pub open spec fn is_ceil_sqrt(n: nat, r: nat) -> bool {
    r * r >= n && (r == 0 || (r - 1) * (r - 1) < n)
}

/// The square root of `n`, rounded up to a whole number.
pub open spec fn ceil_sqrt(n: nat) -> nat {
    choose|r: nat| is_ceil_sqrt(n, r)
}

/// Squaring keeps the order of numbers that are not negative.
pub proof fn lemma_square_grows(a: int, b: int)
    by (nonlinear_arith)
    requires
        0 <= a <= b,
    ensures
        a * a <= b * b,
{
}

/// At most one number is the rounded-up root of `n`.
pub proof fn lemma_ceil_sqrt_unique(n: nat, r1: nat, r2: nat)
    requires
        is_ceil_sqrt(n, r1),
        is_ceil_sqrt(n, r2),
    ensures
        r1 == r2,
{
    if r1 < r2 {
        lemma_square_grows(r1 as int, r2 - 1);
    } else if r2 < r1 {
        lemma_square_grows(r2 as int, r1 - 1);
    }
}

/// Every number has a rounded-up root.
pub proof fn lemma_ceil_sqrt_exists(n: nat)
    ensures
        is_ceil_sqrt(n, ceil_sqrt(n)),
    decreases n,
{
    if n == 0 {
        assert(is_ceil_sqrt(0, 0));
    } else {
        let below: nat = (n - 1) as nat;
        lemma_ceil_sqrt_exists(below);
        let r: nat = ceil_sqrt(below);
        if r * r >= n {
            assert(is_ceil_sqrt(n, r));
        } else {
            assert((r + 1) * (r + 1) >= n) by (nonlinear_arith)
                requires
                    r * r >= n - 1,
            ;
            assert(is_ceil_sqrt(n, r + 1));
        }
    }
}

/// A number that meets the definition is the rounded-up root.
pub proof fn lemma_ceil_sqrt_is(n: nat, r: nat)
    requires
        is_ceil_sqrt(n, r),
    ensures
        ceil_sqrt(n) == r,
{
    lemma_ceil_sqrt_unique(n, r, ceil_sqrt(n));
}

/// Computes the square root of `n`, rounded up.
pub fn ceil_sqrt_of(n: u128) -> (r: u128)
    ensures
        r == ceil_sqrt(n as nat),
        is_ceil_sqrt(n as nat, r as nat),
        r <= 0x1_0000_0000_0000_0000,
{
    let mut lo: u128 = 0;
    let mut hi: u128 = 0x1_0000_0000_0000_0000;
    assert(hi * hi >= n) by (nonlinear_arith)
        requires
            hi == 0x1_0000_0000_0000_0000,
            n <= u128::MAX,
    ;
    while lo < hi
        invariant
            lo <= hi <= 0x1_0000_0000_0000_0000,
            hi * hi >= n,
            lo == 0 || (lo - 1) * (lo - 1) < n,
        decreases hi - lo,
    {
        let mid: u128 = lo + (hi - lo) / 2;
        assert(mid * mid <= u128::MAX) by (nonlinear_arith)
            requires
                mid <= 0xffff_ffff_ffff_ffff,
        ;
        if mid * mid >= n {
            hi = mid;
        } else {
            lo = mid + 1;
        }
    }
    proof {
        lemma_ceil_sqrt_is(n as nat, lo as nat);
    }
    lo
}

} // verus!
