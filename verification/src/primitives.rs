//! The records that the ledger's answers are read into, and the entry of a
//! portfolio.

use vstd::prelude::*;
use vstd::string::*;
use crate::amount::{amount_of, amount_of_bytes, parse_amount, parse_amount_bytes};
use crate::codec::{json_string, json_string_in};
use crate::epoch::{epoch_progress, progress_of, EpochError};

verus! {

/// The answer to a contract call: the bytes that the contract returned, and
/// the block that the call was made against.
#[derive(Debug, Clone)]
pub struct ResponseResult {
    pub block_hash: String,
    pub block_height: u64,
    pub result: Vec<u8>,
}

impl ResponseResult {
    /// The magnitude that the returned bytes hold, if they hold one.
    pub open spec fn amount(&self) -> Option<u128> {
        amount_of_bytes(self.result@)
    }

    /// The magnitude that the returned bytes hold, or nothing where they
    /// hold none.
    pub fn try_amount(&self) -> (r: Option<u128>)
        ensures
            r == self.amount(),
    {
        parse_amount_bytes(self.result.as_slice())
    }

    /// The magnitude that the returned bytes hold.
    pub fn get_amount(self) -> (r: u128)
        requires
            self.amount() is Some,
        ensures
            self.amount() == Some(r),
    {
        parse_amount_bytes(self.result.as_slice()).unwrap()
    }
}

/// The answer to an account view: the native balance as text.
#[derive(Debug, Clone)]
pub struct ViewAccountResult {
    pub amount: String,
}

impl ViewAccountResult {
    /// The native balance, if the text holds a magnitude.
    pub open spec fn balance(&self) -> Option<u128> {
        amount_of(self.amount@)
    }

    /// The native balance, or nothing where the text holds no magnitude.
    pub fn try_amount(&self) -> (r: Option<u128>)
        ensures
            r == self.balance(),
    {
        parse_amount(self.amount.as_str())
    }

    /// The native balance.
    pub fn get_amount(self) -> (r: u128)
        requires
            self.balance() is Some,
        ensures
            self.balance() == Some(r),
    {
        parse_amount(self.amount.as_str()).unwrap()
    }
}

/// What a staking pool holds for one account.
#[derive(Debug, Clone)]
pub struct AccountInPoolResult {
    pub account_id: String,
    pub unstaked_balance: String,
    pub staked_balance: String,
    pub can_withdraw: bool,
}

impl AccountInPoolResult {
    /// The staked balance, if its text holds a magnitude.
    pub open spec fn staked(&self) -> Option<u128> {
        amount_of(self.staked_balance@)
    }

    /// The unstaked balance, if its text holds a magnitude.
    pub open spec fn unstaked(&self) -> Option<u128> {
        amount_of(self.unstaked_balance@)
    }

    /// The staked balance, or nothing where its text holds no magnitude.
    pub fn try_staked_balance(&self) -> (r: Option<u128>)
        ensures
            r == self.staked(),
    {
        parse_amount(self.staked_balance.as_str())
    }

    /// The unstaked balance, or nothing where its text holds no magnitude.
    pub fn try_unstaked_balance(&self) -> (r: Option<u128>)
        ensures
            r == self.unstaked(),
    {
        parse_amount(self.unstaked_balance.as_str())
    }

    /// The staked balance.
    pub fn get_staked_balance(&self) -> (r: u128)
        requires
            self.staked() is Some,
        ensures
            self.staked() == Some(r),
    {
        parse_amount(self.staked_balance.as_str()).unwrap()
    }

    /// The unstaked balance.
    pub fn get_unstaked_balance(&self) -> (r: u128)
        requires
            self.unstaked() is Some,
        ensures
            self.unstaked() == Some(r),
    {
        parse_amount(self.unstaked_balance.as_str()).unwrap()
    }
}

/// A copy of an optional text.
pub fn clone_text(text: &Option<String>) -> (r: Option<String>)
    ensures
        r == *text,
{
    match text {
        Some(s) => Some(s.clone()),
        None => None,
    }
}

/// An entry of the portfolio.
#[derive(Debug, Clone)]
pub struct Account {
    /// The label by which the entries are ordered.
    pub key: Option<String>,
    /// The account on the ledger. Entries that share it share one liquid
    /// balance.
    pub account_id: String,
    /// The staking pool that the account delegates to, once known.
    pub pool_account_id: Option<String>,
    /// A locked amount given with the entry. It is carried along; the
    /// balances of a snapshot are always the ones that the ledger gave.
    pub locked_amount: Option<String>,
}

/// The staking pool that an answer names: the string that its bytes hold as
/// JSON.
pub open spec fn pool_in(answer: Option<&ResponseResult>) -> Option<Seq<char>> {
    match answer {
        Some(found) => json_string_in(found.result@),
        None => None,
    }
}

impl Account {
    /// Whether the staking pool has yet to be looked up on the ledger.
    pub fn needs_pool_lookup(&self) -> (r: bool)
        ensures
            r == (self.pool_account_id is None),
    {
        self.pool_account_id.is_none()
    }

    /// The staking pool of the account. A pool that is already known is
    /// returned and `looked_up` is not read. Otherwise `looked_up`, what the
    /// ledger gave for the account, is kept on the entry and returned;
    /// nothing there leaves the pool unresolved.
    pub fn get_pool_account_id(&mut self, looked_up: Option<String>) -> (r: Option<String>)
        ensures
            final(self).key == old(self).key,
            final(self).account_id == old(self).account_id,
            final(self).locked_amount == old(self).locked_amount,
            old(self).pool_account_id is Some ==> final(self).pool_account_id == old(
                self,
            ).pool_account_id,
            old(self).pool_account_id is None ==> final(self).pool_account_id == looked_up,
            r == final(self).pool_account_id,
    {
        if self.pool_account_id.is_none() {
            self.pool_account_id = looked_up;
        }
        clone_text(&self.pool_account_id)
    }

    /// Resolves the staking pool of the account. A pool that is already
    /// known is returned and `answer` is not read. Otherwise the pool is the
    /// string that `answer`, what the account's contract returned when asked
    /// for it, holds as JSON; it is kept on the entry and returned. No
    /// answer, or one that holds no string, leaves the pool unresolved.
    pub fn resolve_pool(&mut self, answer: Option<&ResponseResult>) -> (r: Option<String>)
        ensures
            final(self).key == old(self).key,
            final(self).account_id == old(self).account_id,
            final(self).locked_amount == old(self).locked_amount,
            old(self).pool_account_id is Some ==> final(self).pool_account_id == old(
                self,
            ).pool_account_id,
            old(self).pool_account_id is None ==> crate::order::key_view(
                final(self).pool_account_id,
            ) == pool_in(answer),
            r == final(self).pool_account_id,
    {
        if self.pool_account_id.is_some() {
            return clone_text(&self.pool_account_id);
        }
        let looked_up = match answer {
            Some(found) => json_string(found.result.as_slice()),
            None => None,
        };
        self.get_pool_account_id(looked_up)
    }

    /// A copy of the entry.
    pub fn duplicate(&self) -> (r: Account)
        ensures
            r == *self,
    {
        Account {
            key: clone_text(&self.key),
            account_id: self.account_id.clone(),
            pool_account_id: clone_text(&self.pool_account_id),
            locked_amount: clone_text(&self.locked_amount),
        }
    }
}

/// A point of the chain that balances are read at.
#[derive(Clone, Copy, Debug, PartialEq, Eq, Structural)]
pub struct ChainSnapshot {
    /// The height of the block.
    pub height: u64,
    /// The height of the first block of the epoch that was current when the
    /// snapshot was taken.
    pub epoch_start_height: u64,
}

impl ChainSnapshot {
    /// The share of the epoch that has passed at the snapshot, in percent,
    /// or the error where the block lies before the epoch's first block.
    pub fn progress(&self) -> (r: Result<u64, EpochError>)
        ensures
            self.epoch_start_height <= self.height ==> r == Ok::<u64, EpochError>(
                progress_of(self.epoch_start_height, self.height) as u64,
            ),
            self.height < self.epoch_start_height ==> r == Err::<u64, EpochError>(
                EpochError::CurrentBeforeEpochStart,
            ),
    {
        epoch_progress(self.epoch_start_height, self.height)
    }
}

} // verus!
