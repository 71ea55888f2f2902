//! BFT supermajority threshold: more than two thirds of the validators.

use vstd::prelude::*;

verus! {

/// Number of identical votes needed for a supermajority among `total` validators:
/// floor(2 * total / 3) + 1.
pub open spec fn supermajority_threshold(total: nat) -> nat {
    (2 * total / 3 + 1) as nat
}

/// Largest number of Byzantine validators tolerated among `total`: floor((total - 1) / 3).
pub open spec fn max_faulty(total: nat) -> int {
    (total - 1) / 3
}

/// Whether `matching_votes` identical votes reach a supermajority of `total_validators`.
pub fn check_supermajority(matching_votes: u64, total_validators: u64) -> (reached: bool)
    ensures
        reached == (matching_votes >= supermajority_threshold(total_validators as nat)),
{
    let doubled: u128 = 2 * (total_validators as u128);
    let threshold: u128 = doubled / 3 + 1;
    (matching_votes as u128) >= threshold
}

/// Quorum intersection: two supermajorities drawn from the same `total`
/// validators share more than `max_faulty(total)` validators, so at least one
/// honest validator is in both.
pub proof fn lemma_quorums_intersect(total: nat, a: nat, b: nat)
    requires
        a <= total,
        b <= total,
        a >= supermajority_threshold(total),
        b >= supermajority_threshold(total),
    ensures
        total >= 1,
        a + b - total > max_faulty(total),
{
    let t = total as int;
    assert(a + b - t > (t - 1) / 3) by (nonlinear_arith)
        requires
            a <= t,
            b <= t,
            a >= 2 * t / 3 + 1,
            b >= 2 * t / 3 + 1,
            t >= 0,
    ;
}

} // verus!
