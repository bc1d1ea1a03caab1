//! One account at one block: the four balances that the ledger gives, and
//! the reward that follows from them.

use vstd::prelude::*;
use crate::primitives::{Account, AccountInPoolResult, ChainSnapshot, ResponseResult, ViewAccountResult};
use crate::reward::{compute_reward, reward_of, reward_outcome, RewardError};

verus! {

/// What the four balance queries for one account at one block gave. Nothing
/// stands for a query that failed.
#[derive(Debug, Clone)]
pub struct QueryResults {
    /// The account's state in its staking pool.
    pub stake: Option<AccountInPoolResult>,
    /// The amount that the lock schedule still holds.
    pub locked: Option<ResponseResult>,
    /// The account's view, with its native balance.
    pub native: Option<ViewAccountResult>,
    /// The balance that the account's contract lets its owner withdraw.
    pub liquid: Option<ResponseResult>,
}

/// Why an account has no snapshot.
#[derive(Clone, Copy, Debug, PartialEq, Eq, Structural)]
pub enum SnapshotError {
    /// The staking pool of the account is not known.
    PoolUnresolved,
    /// The staking pool gave no state for the account, or one that cannot be
    /// read.
    StakeUnavailable,
    /// The ledger gave no native balance for the account, or one that cannot
    /// be read.
    NativeUnavailable,
    /// The locked amount exceeds what it is taken from.
    LockedExceedsHoldings,
    /// The reward does not fit in 128 bits.
    RewardTooLarge,
}

/// The balances of one account at one block, and its reward.
#[derive(Debug, Clone)]
pub struct BalanceSnapshot {
    pub account: Account,
    pub chain: ChainSnapshot,
    pub staked_magnitude: u128,
    pub unstaked_magnitude: u128,
    /// Whether the unstaked balance can be withdrawn from the pool.
    pub can_withdraw: bool,
    pub locked_magnitude: u128,
    pub native_magnitude: u128,
    pub liquid_magnitude: u128,
    pub reward_magnitude: u128,
}

impl BalanceSnapshot {
    /// The reward is what the balances give.
    pub open spec fn wf(&self) -> bool {
        self.reward_magnitude == reward_of(
            self.staked_magnitude,
            self.unstaked_magnitude,
            self.native_magnitude,
            self.locked_magnitude,
        )
    }
}

impl QueryResults {
    /// The staked and the unstaked balance, where the pool's answer is there
    /// and both can be read.
    pub open spec fn stake_balances(&self) -> Option<(u128, u128)> {
        match self.stake {
            Some(state) => match (state.staked(), state.unstaked()) {
                (Some(staked), Some(unstaked)) => Some((staked, unstaked)),
                _ => None,
            },
            None => None,
        }
    }

    /// The locked amount: zero where the query failed or its answer cannot
    /// be read.
    pub open spec fn locked_amount(&self) -> u128 {
        match self.locked {
            Some(answer) => match answer.amount() {
                Some(value) => value,
                None => 0,
            },
            None => 0,
        }
    }

    /// The native balance, where the query gave one that can be read.
    pub open spec fn native_balance(&self) -> Option<u128> {
        match self.native {
            Some(view) => view.balance(),
            None => None,
        }
    }

    /// The liquid balance: `native` where the query failed or its answer
    /// cannot be read.
    pub open spec fn liquid_balance(&self, native: u128) -> u128 {
        match self.liquid {
            Some(answer) => match answer.amount() {
                Some(value) => value,
                None => native,
            },
            None => native,
        }
    }
}

/// The error that stands for a reward that cannot be given.
pub open spec fn reward_failure(e: RewardError) -> SnapshotError {
    match e {
        RewardError::LockedExceedsHoldings => SnapshotError::LockedExceedsHoldings,
        RewardError::TooLarge => SnapshotError::RewardTooLarge,
    }
}

/// The snapshot of `account` at `chain` that `results` give, or the reason
/// why there is none. The reasons are tried in this order: the pool is not
/// known; the stake is missing; the native balance is missing; the reward is
/// out of range.
pub open spec fn snapshot_of(account: Account, chain: ChainSnapshot, results: QueryResults) -> Result<
    BalanceSnapshot,
    SnapshotError,
> {
    if account.pool_account_id is None {
        Err(SnapshotError::PoolUnresolved)
    } else if results.stake_balances() is None {
        Err(SnapshotError::StakeUnavailable)
    } else if results.native_balance() is None {
        Err(SnapshotError::NativeUnavailable)
    } else {
        let (staked, unstaked) = results.stake_balances()->0;
        let native = results.native_balance()->0;
        let locked = results.locked_amount();
        match reward_outcome(staked, unstaked, native, locked) {
            Err(e) => Err(reward_failure(e)),
            Ok(reward) => Ok(
                BalanceSnapshot {
                    account,
                    chain,
                    staked_magnitude: staked,
                    unstaked_magnitude: unstaked,
                    can_withdraw: results.stake->0.can_withdraw,
                    locked_magnitude: locked,
                    native_magnitude: native,
                    liquid_magnitude: results.liquid_balance(native),
                    reward_magnitude: reward,
                },
            ),
        }
    }
}

/// Builds the snapshot of `account` at `chain` from the answers to its four
/// balance queries.
///
/// A missing pool, stake or native balance leaves the account without a
/// snapshot. A missing locked amount counts as zero, and a missing liquid
/// balance as the native balance.
pub fn collect_account_data(account: &Account, chain: ChainSnapshot, results: &QueryResults) -> (r: Result<
    BalanceSnapshot,
    SnapshotError,
>)
    ensures
        r == snapshot_of(*account, chain, *results),
        r matches Ok(snapshot) ==> snapshot.wf(),
{
    if account.pool_account_id.is_none() {
        return Err(SnapshotError::PoolUnresolved);
    }
    let state = match &results.stake {
        Some(state) => state,
        None => {
            return Err(SnapshotError::StakeUnavailable);
        },
    };
    let staked: u128 = match state.try_staked_balance() {
        Some(value) => value,
        None => {
            return Err(SnapshotError::StakeUnavailable);
        },
    };
    let unstaked: u128 = match state.try_unstaked_balance() {
        Some(value) => value,
        None => {
            return Err(SnapshotError::StakeUnavailable);
        },
    };
    let native: u128 = match &results.native {
        Some(view) => match view.try_amount() {
            Some(value) => value,
            None => {
                return Err(SnapshotError::NativeUnavailable);
            },
        },
        None => {
            return Err(SnapshotError::NativeUnavailable);
        },
    };
    let locked: u128 = match &results.locked {
        Some(answer) => match answer.try_amount() {
            Some(value) => value,
            None => 0,
        },
        None => 0,
    };
    let liquid: u128 = match &results.liquid {
        Some(answer) => match answer.try_amount() {
            Some(value) => value,
            None => native,
        },
        None => native,
    };
    match compute_reward(staked, unstaked, native, locked) {
        Err(RewardError::LockedExceedsHoldings) => Err(SnapshotError::LockedExceedsHoldings),
        Err(RewardError::TooLarge) => Err(SnapshotError::RewardTooLarge),
        Ok(reward) => Ok(
            BalanceSnapshot {
                account: account.duplicate(),
                chain,
                staked_magnitude: staked,
                unstaked_magnitude: unstaked,
                can_withdraw: state.can_withdraw,
                locked_magnitude: locked,
                native_magnitude: native,
                liquid_magnitude: liquid,
                reward_magnitude: reward,
            },
        ),
    }
}

} // verus!
