//! Amounts: sums that must fit in 64 bits, and the miners' share of the fees.

use vstd::prelude::*;

verus! {

/// The sum of a list of amounts.
pub open spec fn sum(amounts: Seq<u64>) -> nat
    decreases amounts.len(),
{
    if amounts.len() == 0 {
        0
    } else {
        sum(amounts.drop_last()) + amounts.last() as nat
    }
}

proof fn lemma_sum_of_prefix(amounts: Seq<u64>, n: int)
    requires
        0 <= n <= amounts.len(),
    ensures
        sum(amounts.take(n)) <= sum(amounts),
    decreases amounts.len() - n,
{
    if n < amounts.len() {
        lemma_sum_of_prefix(amounts, n + 1);
        assert(amounts.take(n + 1).drop_last() =~= amounts.take(n));
    } else {
        assert(amounts.take(n) =~= amounts);
    }
}

/// Adds up a list of amounts. There is no total where the sum does not fit.
pub fn total(amounts: &Vec<u64>) -> (total: Option<u64>)
    ensures
        match total {
            Some(t) => t == sum(amounts@),
            None => sum(amounts@) > u64::MAX,
        },
{
    let mut t: u64 = 0;
    let mut i: usize = 0;
    while i < amounts.len()
        invariant
            i <= amounts.len(),
            t == sum(amounts@.take(i as int)),
        decreases amounts.len() - i,
    {
        proof {
            assert(amounts@.take(i + 1).drop_last() =~= amounts@.take(i as int));
            lemma_sum_of_prefix(amounts@, i + 1);
        }
        match t.checked_add(amounts[i]) {
            Some(next) => {
                t = next;
            },
            None => {
                return None;
            },
        }
        i += 1;
    }
    proof {
        assert(amounts@.take(amounts@.len() as int) =~= amounts@);
    }
    Some(t)
}

/// The percentage of the collected fees that goes to the miner.
pub const MINER_PERCENT: u64 = 98;

/// The miner's share of the fees of a block, rounded down.
pub open spec fn miner_share(fees: nat) -> nat {
    fees * (MINER_PERCENT as nat) / 100
}

/// Why the share of a block cannot be computed.
#[derive(Debug, PartialEq, Eq, Structural, Clone, Copy)]
pub enum ShareError {
    /// The sum of the fees does not fit.
    Fees,
    /// The multiple of the sum does not fit.
    Amount,
}

impl ShareError {
    /// The error in words.
    pub fn message(&self) -> (text: &'static str)
        ensures
            text@ == match *self {
                ShareError::Fees => "fee overflow"@,
                ShareError::Amount => "amount overflow"@,
            },
    {
        match self {
            ShareError::Fees => "fee overflow",
            ShareError::Amount => "amount overflow",
        }
    }
}

/// Computes the miner's share of a list of fees.
pub fn share(fees: &Vec<u64>) -> (amount: Result<u64, ShareError>)
    ensures
        match amount {
            Ok(a) => a == miner_share(sum(fees@)) && sum(fees@) * 98 <= u64::MAX,
            Err(ShareError::Fees) => sum(fees@) > u64::MAX,
            Err(ShareError::Amount) => sum(fees@) <= u64::MAX && sum(fees@) * 98 > u64::MAX,
        },
{
    match total(fees) {
        Some(t) => match t.checked_mul(MINER_PERCENT) {
            Some(product) => Ok(product / 100),
            None => Err(ShareError::Amount),
        },
        None => Err(ShareError::Fees),
    }
}

/// The miner never receives more than the fees, and the service keeps at least the
/// remaining percentage of them.
pub proof fn law_share_is_within_fees(fees: nat)
    ensures
        miner_share(fees) <= fees,
        100 * (fees - miner_share(fees)) >= 2 * fees,
        98 * fees - 100 < 100 * miner_share(fees) <= 98 * fees,
{
}

} // verus!
