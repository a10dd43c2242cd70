//! Saturating counters used by the metric calculators.
//!
//! The metric values themselves are unbounded mathematical counts; the
//! executable calculators return them capped at `usize::MAX`, so every
//! contract speaks of [`cap`] of the true count.

use vstd::prelude::*;

verus! {

/// A mathematical count capped at the machine word's maximum.
pub open spec fn cap(n: nat) -> nat {
    if n > usize::MAX as nat {
        usize::MAX as nat
    } else {
        n
    }
}

/// The larger of two mathematical counts.
pub open spec fn nmax(a: nat, b: nat) -> nat {
    if a > b {
        a
    } else {
        b
    }
}

/// Saturating addition: the exact sum when it fits, `usize::MAX` otherwise.
pub fn sat_add(a: usize, b: usize) -> (r: usize)
    ensures
        r as nat == cap(a as nat + b as nat),
{
    if a <= usize::MAX - b {
        a + b
    } else {
        usize::MAX
    }
}

/// The larger of two counters.
pub fn max_usize(a: usize, b: usize) -> (r: usize)
    ensures
        r == if a > b {
            a
        } else {
            b
        },
{
    if a > b {
        a
    } else {
        b
    }
}

} // verus!
