//! Powers of two: the vector's capacity policy rounds required capacities up
//! to the next power of two.

use vstd::prelude::*;

verus! {

/// Whether `n` is a power of two.
pub open spec fn is_pow2(n: nat) -> bool
    decreases n,
{
    if n == 0 {
        false
    } else if n == 1 {
        true
    } else {
        n % 2 == 0 && is_pow2(n / 2)
    }
}

/// The least power of two that is at least `n`, for `n >= 1`: double the
/// answer for the rounded-up half.
pub open spec fn next_pow2(n: nat) -> nat
    decreases n,
{
    if n <= 1 {
        1
    } else {
        2 * next_pow2((n + 1) / 2)
    }
}

/// `next_pow2(n)` is a power of two and is at least `n`.
pub proof fn lemma_next_pow2_at_least(n: nat)
    requires
        1 <= n,
    ensures
        next_pow2(n) >= n,
        is_pow2(next_pow2(n)),
    decreases n,
{
    if n > 1 {
        let c = (n + 1) / 2;
        lemma_next_pow2_at_least(c);
        assert(is_pow2(2 * next_pow2(c)));
    }
}

/// A power of two that is at least `n` but below `2 * n` is exactly
/// `next_pow2(n)`.
pub proof fn lemma_pow2_interval(p: nat, n: nat)
    requires
        1 <= n,
        is_pow2(p),
        n <= p,
        p < 2 * n,
    ensures
        p == next_pow2(n),
    decreases n,
{
    if n == 1 {
        assert(p == 1);
    } else {
        let c = (n + 1) / 2;
        assert(p % 2 == 0);
        assert(p >= 2 * c);
        assert(p / 2 < 2 * c);
        lemma_pow2_interval(p / 2, c);
    }
}

/// The least power of two at least `n`.
#[verifier::loop_isolation(false)]
pub(crate) fn next_power_of_two(n: usize) -> (p: usize)
    requires
        1 <= n <= usize::MAX / 2 + 1,
    ensures
        p == next_pow2(n as nat),
{
    let mut p: usize = 1;
    while p < n
        invariant
            1 <= p,
            is_pow2(p as nat),
            p < 2 * n,
        decreases 2 * n - p,
    {
        p = p * 2;
    }
    proof {
        lemma_pow2_interval(p as nat, n as nat);
    }
    p
}

} // verus!
