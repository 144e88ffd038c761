use vstd::prelude::*;

verus! {

/// Largest number of faulty peers that a consensus of `n` peers tolerates.
pub open spec fn spec_max_faulty(n: nat) -> nat {
    if n == 0 {
        0
    } else {
        ((n - 1) / 3) as nat
    }
}

/// Number of agreeing peers needed for a decision among `n` peers.
pub open spec fn spec_threshold(n: nat) -> nat {
    (n - spec_max_faulty(n)) as nat
}

/// Number of faulty peers tolerated by a peer set of size `n`.
pub fn max_faulty(n: usize) -> (r: usize)
    ensures
        r == spec_max_faulty(n as nat),
{
    if n == 0 {
        0
    } else {
        (n - 1) / 3
    }
}

/// Number of votes needed for a decision among `n` peers.
pub fn threshold(n: usize) -> (r: usize)
    ensures
        r == spec_threshold(n as nat),
{
    n - max_faulty(n)
}

/// A decision needs at least one vote, and never more votes than there are peers.
pub proof fn lemma_threshold_bounds(n: nat)
    requires
        n >= 1,
    ensures
        1 <= spec_threshold(n) <= n,
{
}

/// Any two groups of `threshold(n)` peers out of `n` share more than
/// `max_faulty(n)` peers, so at least one honest peer is in both.
pub proof fn lemma_quorum_intersection(n: nat)
    requires
        n >= 1,
    ensures
        2 * spec_threshold(n) >= n + spec_max_faulty(n) + 1,
{
}

/// More than half of the peers are needed for a decision.
pub proof fn lemma_threshold_majority(n: nat)
    requires
        n >= 1,
    ensures
        2 * spec_threshold(n) > n,
{
}

} // verus!
