//! The contract calls that the balances are asked for with.

use vstd::prelude::*;
use vstd::string::*;
use crate::codec::{base64_of, base64_text, json_object, json_object_text, MAX_ENCODED_INPUT};

verus! {

/// The block that a call is made against.
#[derive(Clone, Copy, Debug, PartialEq, Eq, Structural)]
pub enum BlockRef {
    /// The latest final block.
    Final,
    /// The block at this height.
    Height(u64),
}

/// A read-only call of a contract's method.
#[derive(Debug, Clone)]
pub struct ContractCall {
    /// The block to make the call against.
    pub block: BlockRef,
    /// The account that holds the contract.
    pub account_id: String,
    /// The method to call.
    pub method_name: String,
    /// The arguments: JSON text in base64.
    pub args_base64: String,
}

impl ContractCall {
    /// Whether the call is the one that the four parts describe.
    pub open spec fn is(
        &self,
        block: BlockRef,
        account_id: Seq<char>,
        method_name: Seq<char>,
        args_base64: Seq<char>,
    ) -> bool {
        &&& self.block == block
        &&& self.account_id@ == account_id
        &&& self.method_name@ == method_name
        &&& self.args_base64@ == args_base64
    }
}

/// The call that asks the lock schedule of `account_id` for the amount it
/// still holds at `block_height`.
pub fn locked_amount_call(account_id: &str, block_height: u64) -> (r: ContractCall)
    ensures
        r.is(BlockRef::Height(block_height), account_id@, "get_locked_amount"@, ""@),
{
    ContractCall {
        block: BlockRef::Height(block_height),
        account_id: account_id.to_owned(),
        method_name: "get_locked_amount".to_owned(),
        args_base64: "".to_owned(),
    }
}

/// The call that asks the contract of `account_id` for the balance that its
/// owner can withdraw at `block_height`.
pub fn liquid_owners_balance_call(account_id: &str, block_height: u64) -> (r: ContractCall)
    ensures
        r.is(BlockRef::Height(block_height), account_id@, "get_liquid_owners_balance"@, ""@),
{
    ContractCall {
        block: BlockRef::Height(block_height),
        account_id: account_id.to_owned(),
        method_name: "get_liquid_owners_balance".to_owned(),
        args_base64: "".to_owned(),
    }
}

/// The call that asks the contract of `account_id` for the staking pool it
/// delegates to, at the latest final block. The arguments are the empty
/// JSON object.
pub fn staking_pool_call(account_id: &str) -> (r: ContractCall)
    ensures
        r.is(BlockRef::Final, account_id@, "get_staking_pool_account_id"@, "e30="@),
{
    ContractCall {
        block: BlockRef::Final,
        account_id: account_id.to_owned(),
        method_name: "get_staking_pool_account_id".to_owned(),
        args_base64: "e30=".to_owned(),
    }
}

/// The base64 text of the UTF-8 bytes of `text`, where they are at most
/// `MAX_ENCODED_INPUT`.
pub open spec fn encoded_text(text: Seq<char>) -> Option<Seq<char>> {
    let bytes = vstd::utf8::encode_utf8(text);
    if bytes.len() <= MAX_ENCODED_INPUT {
        Some(base64_of(bytes))
    } else {
        None
    }
}

/// Encodes `text` in base64, or gives nothing where it is too long.
pub fn encode_text(text: &str) -> (r: Option<String>)
    ensures
        r is Some <==> encoded_text(text@) is Some,
        r matches Some(encoded) ==> encoded_text(text@) == Some(encoded@),
{
    let bytes = text.as_bytes();
    if bytes.len() <= MAX_ENCODED_INPUT {
        Some(base64_text(bytes))
    } else {
        None
    }
}

/// The arguments of the call that asks a pool for the state of
/// `account_id`: the object `{"account_id": ...}` as JSON text in base64.
pub open spec fn pool_args(account_id: Seq<char>) -> Option<Seq<char>> {
    encoded_text(json_object_text("account_id"@, account_id))
}

/// The call for the arguments `args`, once they are encoded: the call of
/// `get_account` on the pool, or nothing where there are no arguments.
pub fn account_in_pool_call_with(args: Option<String>, pool_account_id: &str, block_height: u64) -> (r:
    Option<ContractCall>)
    ensures
        r is Some <==> args is Some,
        r matches Some(call) ==> call.is(
            BlockRef::Height(block_height),
            pool_account_id@,
            "get_account"@,
            args->0@,
        ),
{
    match args {
        Some(args_base64) => Some(
            ContractCall {
                block: BlockRef::Height(block_height),
                account_id: pool_account_id.to_owned(),
                method_name: "get_account".to_owned(),
                args_base64,
            },
        ),
        None => None,
    }
}

/// The call that asks the pool `pool_account_id` for the state of
/// `account_id` at `block_height`, or nothing where the account's name is
/// too long to encode.
pub fn account_in_pool_call(account_id: &str, pool_account_id: &str, block_height: u64) -> (r: Option<
    ContractCall,
>)
    ensures
        r is Some <==> pool_args(account_id@) is Some,
        r matches Some(call) ==> call.is(
            BlockRef::Height(block_height),
            pool_account_id@,
            "get_account"@,
            pool_args(account_id@)->0,
        ),
{
    let text = json_object("account_id", account_id);
    account_in_pool_call_with(encode_text(text.as_str()), pool_account_id, block_height)
}

} // verus!
