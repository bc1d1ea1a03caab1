//! The reward of an account, and the change of a reward between two
//! snapshots.

use vstd::prelude::*;

verus! {

/// The part of the native balance that counts towards the reward: all of it
/// while a lock is active, none of it otherwise.
pub open spec fn counted_native(native: u128, locked: u128) -> int {
    if locked > 0 {
        native as int
    } else {
        0
    }
}

/// The reward as a mathematical integer: staked plus unstaked, plus the
/// native balance while a lock is active, minus the locked amount.
pub open spec fn reward_of(staked: u128, unstaked: u128, native: u128, locked: u128) -> int {
    staked + unstaked + counted_native(native, locked) - locked
}

/// Why balances give no reward.
#[derive(Clone, Copy, Debug, PartialEq, Eq, Structural)]
pub enum RewardError {
    /// The locked amount is larger than everything it is taken from, so the
    /// reward would be negative.
    LockedExceedsHoldings,
    /// The reward does not fit in 128 bits.
    TooLarge,
}

/// What `compute_reward` returns, as a function of the four balances.
pub open spec fn reward_outcome(staked: u128, unstaked: u128, native: u128, locked: u128) -> Result<
    u128,
    RewardError,
> {
    let exact = reward_of(staked, unstaked, native, locked);
    if exact < 0 {
        Err(RewardError::LockedExceedsHoldings)
    } else if exact > u128::MAX {
        Err(RewardError::TooLarge)
    } else {
        Ok(exact as u128)
    }
}

/// The sum of two magnitudes as a carry and the low 128 bits.
fn wide_add(high: u8, low: u128, term: u128) -> (r: (u8, u128))
    requires
        high < 4,
    ensures
        r.0 <= high + 1,
        r.0 * 0x1_0000_0000_0000_0000_0000_0000_0000_0000 + r.1 == high
            * 0x1_0000_0000_0000_0000_0000_0000_0000_0000 + low + term,
{
    if term <= u128::MAX - low {
        (high, low + term)
    } else {
        (high + 1, term - (u128::MAX - low) - 1)
    }
}

/// The reward of an account with the given balances. The result is exact:
/// a reward below zero or beyond 128 bits is reported, never wrapped.
pub fn compute_reward(staked: u128, unstaked: u128, native: u128, locked: u128) -> (r: Result<
    u128,
    RewardError,
>)
    ensures
        r == reward_outcome(staked, unstaked, native, locked),
        r matches Ok(reward) ==> reward == reward_of(staked, unstaked, native, locked),
        r is Ok <==> 0 <= reward_of(staked, unstaked, native, locked) <= u128::MAX,
{
    let counted: u128 = if locked > 0 { native } else { 0 };
    let (h1, l1) = wide_add(0, staked, unstaked);
    let (high, low) = wide_add(h1, l1, counted);
    if high == 0 {
        if low >= locked {
            Ok(low - locked)
        } else {
            Err(RewardError::LockedExceedsHoldings)
        }
    } else if high == 1 && low < locked {
        Ok(u128::MAX - locked + low + 1)
    } else {
        Err(RewardError::TooLarge)
    }
}

/// The direction of a change.
#[derive(Clone, Copy, Debug, PartialEq, Eq, Structural)]
pub enum Sign {
    /// The later value is larger.
    Positive,
    /// The later value is smaller.
    Negative,
    /// Both values are equal.
    Zero,
}

/// The change of a reward: its direction and its size. Together they hold
/// any difference of two 128-bit magnitudes.
#[derive(Clone, Copy, Debug, PartialEq, Eq, Structural)]
pub struct RewardDelta {
    pub sign: Sign,
    pub magnitude: u128,
}

impl RewardDelta {
    /// The sign is `Zero` exactly where the size is zero.
    pub open spec fn wf(self) -> bool {
        self.sign == Sign::Zero <==> self.magnitude == 0
    }

    /// The change as a mathematical integer.
    pub open spec fn signed(self) -> int {
        match self.sign {
            Sign::Positive => self.magnitude as int,
            Sign::Negative => -(self.magnitude as int),
            Sign::Zero => 0,
        }
    }

    /// Whether the reward grew.
    pub fn is_gain(&self) -> (r: bool)
        ensures
            r == (self.sign == Sign::Positive),
    {
        self.sign == Sign::Positive
    }

    /// Whether the reward shrank.
    pub fn is_loss(&self) -> (r: bool)
        ensures
            r == (self.sign == Sign::Negative),
    {
        self.sign == Sign::Negative
    }
}

/// What `reward_diff` returns, as a function of the two rewards.
pub open spec fn delta_of(current_reward: u128, prev_reward: u128) -> RewardDelta {
    if current_reward > prev_reward {
        RewardDelta { sign: Sign::Positive, magnitude: (current_reward - prev_reward) as u128 }
    } else if current_reward < prev_reward {
        RewardDelta { sign: Sign::Negative, magnitude: (prev_reward - current_reward) as u128 }
    } else {
        RewardDelta { sign: Sign::Zero, magnitude: 0 }
    }
}

/// The change of the reward from `prev_reward` to `current_reward`.
pub fn reward_diff(current_reward: u128, prev_reward: u128) -> (r: RewardDelta)
    ensures
        r == delta_of(current_reward, prev_reward),
        r.wf(),
        r.signed() == current_reward - prev_reward,
        r.sign == Sign::Positive <==> current_reward > prev_reward,
        r.sign == Sign::Negative <==> current_reward < prev_reward,
        r.sign == Sign::Zero <==> current_reward == prev_reward,
{
    if current_reward > prev_reward {
        RewardDelta { sign: Sign::Positive, magnitude: current_reward - prev_reward }
    } else if current_reward < prev_reward {
        RewardDelta { sign: Sign::Negative, magnitude: prev_reward - current_reward }
    } else {
        RewardDelta { sign: Sign::Zero, magnitude: 0 }
    }
}

} // verus!
