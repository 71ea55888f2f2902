//! Splitting collected block fees between the UBI, consensus, governance and
//! treasury pools (45/30/15/10).

use vstd::prelude::*;

verus! {

/// Share of fees (percent) for universal basic income.
pub const UBI_ALLOCATION_PERCENTAGE: u64 = 45;
/// Share of fees (percent) for the consensus (sector DAO) pool.
pub const SECTOR_DAO_ALLOCATION_PERCENTAGE: u64 = 30;
/// Share of fees (percent) for the governance (emergency) pool.
pub const EMERGENCY_ALLOCATION_PERCENTAGE: u64 = 15;
/// Share of fees (percent) for the treasury (development grants).
pub const DEV_GRANT_ALLOCATION_PERCENTAGE: u64 = 10;

/// Amounts sent to each pool by one fee distribution.
#[derive(Clone, Copy, Debug, PartialEq, Eq, Structural)]
pub struct FeeDistributionResult {
    pub ubi_amount: u64,
    pub consensus_amount: u64,
    pub governance_amount: u64,
    pub treasury_amount: u64,
}

impl FeeDistributionResult {
    pub fn new(ubi_amount: u64, consensus_amount: u64, governance_amount: u64, treasury_amount: u64) -> (r: Self)
        ensures
            r == (FeeDistributionResult { ubi_amount, consensus_amount, governance_amount, treasury_amount }),
    {
        FeeDistributionResult { ubi_amount, consensus_amount, governance_amount, treasury_amount }
    }
}

/// The distribution of `total` fees: each pool gets its percentage, rounded down.
pub open spec fn fee_split(total: nat) -> FeeDistributionResult {
    FeeDistributionResult {
        ubi_amount: (total * 45 / 100) as u64,
        consensus_amount: (total * 30 / 100) as u64,
        governance_amount: (total * 15 / 100) as u64,
        treasury_amount: (total * 10 / 100) as u64,
    }
}

/// Sum of the four pool amounts.
pub open spec fn distributed_total(r: FeeDistributionResult) -> int {
    r.ubi_amount + r.consensus_amount + r.governance_amount + r.treasury_amount
}

/// Construction of a distribution from the fees collected in a block.
pub trait FeeDistributionResultExt: Sized {
    /// Split `total_fees` 45/30/15/10, each share rounded down.
    fn from_total_fees(total_fees: u64) -> (r: Self)
        requires
            total_fees <= u64::MAX / 45,
    ;
}

impl FeeDistributionResultExt for FeeDistributionResult {
    fn from_total_fees(total_fees: u64) -> (r: Self)
        ensures
            r == fee_split(total_fees as nat),
    {
        let ubi_amount = total_fees * UBI_ALLOCATION_PERCENTAGE / 100;
        let consensus_amount = total_fees * SECTOR_DAO_ALLOCATION_PERCENTAGE / 100;
        let governance_amount = total_fees * EMERGENCY_ALLOCATION_PERCENTAGE / 100;
        let treasury_amount = total_fees * DEV_GRANT_ALLOCATION_PERCENTAGE / 100;
        Self::new(ubi_amount, consensus_amount, governance_amount, treasury_amount)
    }
}

/// Fee conservation: the split never distributes more than was collected, and
/// rounding leaves at most 3 base units undistributed.
pub proof fn lemma_fee_split_conserves(total: nat)
    requires
        total <= u64::MAX / 45,
    ensures
        distributed_total(fee_split(total)) <= total,
        total - distributed_total(fee_split(total)) <= 3,
{
    let t = total as int;
    let q = t / 100;
    let r = t % 100;
    assert(t == 100 * q + r && 0 <= r < 100) by (nonlinear_arith)
        requires t >= 0, q == t / 100, r == t % 100;
    assert(t * 45 / 100 == 45 * q + r * 45 / 100) by (nonlinear_arith)
        requires t == 100 * q + r, 0 <= r < 100, q >= 0;
    assert(t * 30 / 100 == 30 * q + r * 30 / 100) by (nonlinear_arith)
        requires t == 100 * q + r, 0 <= r < 100, q >= 0;
    assert(t * 15 / 100 == 15 * q + r * 15 / 100) by (nonlinear_arith)
        requires t == 100 * q + r, 0 <= r < 100, q >= 0;
    assert(t * 10 / 100 == 10 * q + r * 10 / 100) by (nonlinear_arith)
        requires t == 100 * q + r, 0 <= r < 100, q >= 0;
    assert(r * 45 / 100 + r * 30 / 100 + r * 15 / 100 + r * 10 / 100 <= r) by (nonlinear_arith)
        requires 0 <= r < 100;
    assert(r - (r * 45 / 100 + r * 30 / 100 + r * 15 / 100 + r * 10 / 100) <= 3) by (nonlinear_arith)
        requires 0 <= r < 100;
}

} // verus!
