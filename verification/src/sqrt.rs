//! Integer square roots.

use vstd::prelude::*;

verus! {

/// Whether `r` is the integer square root of `n`: the largest integer whose
/// square does not exceed `n`.
pub open spec fn is_floor_sqrt(n: int, r: int) -> bool {
    0 <= r && r * r <= n && n < (r + 1) * (r + 1)
}

/// The integer square root of `n`.
pub open spec fn floor_sqrt(n: nat) -> nat {
    choose|r: nat| is_floor_sqrt(n as int, r as int)
}

/// Every natural number has an integer square root.
pub proof fn lemma_floor_sqrt_exists(n: nat)
    ensures
        is_floor_sqrt(n as int, floor_sqrt(n) as int),
    decreases n,
{
    if n == 0 {
        assert(is_floor_sqrt(0, 0nat as int));
    } else {
        let m = (n - 1) as nat;
        lemma_floor_sqrt_exists(m);
        let s = floor_sqrt(m);
        assert(n as int <= (s + 1) * (s + 1));
        if (s + 1) * (s + 1) <= n {
            assert((s + 1) * (s + 1) < (s + 2) * (s + 2)) by (nonlinear_arith);
            assert(is_floor_sqrt(n as int, (s + 1) as nat as int));
        } else {
            assert(s * s <= n as int);
            assert(is_floor_sqrt(n as int, s as int));
        }
    }
}

/// Squaring keeps the order of natural numbers.
pub proof fn lemma_square_monotone(a: int, b: int)
    requires
        0 <= a <= b,
    ensures
        a * a <= b * b,
{
    assert(a * a <= b * b) by (nonlinear_arith)
        requires
            0 <= a <= b,
    ;
}

/// No number has two integer square roots.
pub proof fn lemma_floor_sqrt_unique(n: int, r: int, s: int)
    requires
        is_floor_sqrt(n, r),
        is_floor_sqrt(n, s),
    ensures
        r == s,
{
    if r < s {
        lemma_square_monotone(r + 1, s);
    } else if s < r {
        lemma_square_monotone(s + 1, r);
    }
}

/// Whatever passes the test for the integer square root of `n` is
/// `floor_sqrt(n)`.
pub proof fn lemma_floor_sqrt_is(n: nat, r: int)
    requires
        is_floor_sqrt(n as int, r),
    ensures
        r == floor_sqrt(n),
{
    lemma_floor_sqrt_exists(n);
    lemma_floor_sqrt_unique(n as int, r, floor_sqrt(n) as int);
}

/// Computes the integer square root of `n` by bisection.
pub fn isqrt(n: u64) -> (r: u64)
    ensures
        r == floor_sqrt(n as nat),
        is_floor_sqrt(n as int, r as int),
{
    let mut low: u64 = 0;
    let mut high: u64 = 0x1_0000_0000;
    while high - low > 1
        invariant
            low < high <= 0x1_0000_0000,
            low * low <= n,
            n < high * high,
        decreases high - low,
    {
        let middle: u64 = low + (high - low) / 2;
        assert(middle * middle <= 0xffff_ffff * 0xffff_ffff) by (nonlinear_arith)
            requires
                0 <= middle <= 0xffff_ffff,
        ;
        if middle * middle <= n {
            low = middle;
        } else {
            high = middle;
        }
    }
    proof {
        lemma_floor_sqrt_is(n as nat, low as int);
    }
    low
}

} // verus!
