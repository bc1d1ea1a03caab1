use near_rewards::primitives::{Account, ResponseResult};
use near_rewards::query::{
    account_in_pool_call, account_in_pool_call_with, encode_text, liquid_owners_balance_call,
    locked_amount_call, staking_pool_call, BlockRef,
};

fn entry_for(pool: Option<&str>) -> Account {
    Account {
        key: Some(String::from("k")),
        account_id: String::from("alice.near"),
        pool_account_id: pool.map(String::from),
        locked_amount: Some(String::from("1")),
    }
}

fn answer(bytes: &[u8]) -> ResponseResult {
    ResponseResult { block_hash: String::from("h"), block_height: 1, result: bytes.to_vec() }
}

#[test]
fn a_known_pool_is_returned_unchanged() {
    let mut account = entry_for(Some("pool.near"));
    assert!(!account.needs_pool_lookup());
    let got = account.get_pool_account_id(Some(String::from("other.near")));
    assert_eq!(got, Some(String::from("pool.near")));
    assert_eq!(account.pool_account_id, Some(String::from("pool.near")));
    let got = account.get_pool_account_id(None);
    assert_eq!(got, Some(String::from("pool.near")));
}

#[test]
fn a_looked_up_pool_is_kept() {
    let mut account = entry_for(None);
    assert!(account.needs_pool_lookup());
    let got = account.get_pool_account_id(Some(String::from("found.near")));
    assert_eq!(got, Some(String::from("found.near")));
    assert_eq!(account.pool_account_id, Some(String::from("found.near")));
    assert!(!account.needs_pool_lookup());
    let again = account.get_pool_account_id(Some(String::from("later.near")));
    assert_eq!(again, Some(String::from("found.near")));
    assert_eq!(account.account_id, "alice.near");
    assert_eq!(account.key, Some(String::from("k")));
    assert_eq!(account.locked_amount, Some(String::from("1")));
}

#[test]
fn a_failed_lookup_leaves_the_pool_unresolved() {
    let mut account = entry_for(None);
    assert_eq!(account.get_pool_account_id(None), None);
    assert_eq!(account.pool_account_id, None);
    assert!(account.needs_pool_lookup());
}

#[test]
fn resolve_pool_reads_the_answer_as_a_json_string() {
    let mut account = entry_for(None);
    let found = answer(b"\"zavodil.poolv1.near\"");
    let got = account.resolve_pool(Some(&found));
    assert_eq!(got, Some(String::from("zavodil.poolv1.near")));
    assert_eq!(account.pool_account_id, Some(String::from("zavodil.poolv1.near")));
}

#[test]
fn resolve_pool_undoes_json_escapes() {
    let mut account = entry_for(None);
    let found = answer(b" \"a\\u0062\\\"c\" ");
    assert_eq!(account.resolve_pool(Some(&found)), Some(String::from("ab\"c")));
}

#[test]
fn resolve_pool_keeps_a_known_pool() {
    let mut account = entry_for(Some("pool.near"));
    let found = answer(b"\"other.near\"");
    assert_eq!(account.resolve_pool(Some(&found)), Some(String::from("pool.near")));
    assert_eq!(account.resolve_pool(None), Some(String::from("pool.near")));
    assert_eq!(account.pool_account_id, Some(String::from("pool.near")));
}

#[test]
fn resolve_pool_without_a_usable_answer_stays_unresolved() {
    let mut account = entry_for(None);
    assert_eq!(account.resolve_pool(None), None);
    assert_eq!(account.resolve_pool(Some(&answer(b"null"))), None);
    assert_eq!(account.resolve_pool(Some(&answer(b"pool.near"))), None);
    assert_eq!(account.resolve_pool(Some(&answer(b"{\"pool\":\"x\"}"))), None);
    assert_eq!(account.resolve_pool(Some(&answer(b""))), None);
    assert_eq!(account.pool_account_id, None);
}

#[test]
fn duplicate_copies_every_field() {
    let account = entry_for(Some("pool.near"));
    let copy = account.duplicate();
    assert_eq!(copy.key, account.key);
    assert_eq!(copy.account_id, account.account_id);
    assert_eq!(copy.pool_account_id, account.pool_account_id);
    assert_eq!(copy.locked_amount, account.locked_amount);
}

#[test]
fn locked_amount_call_names_the_method() {
    let call = locked_amount_call("lock.near", 77);
    assert_eq!(call.block, BlockRef::Height(77));
    assert_eq!(call.account_id, "lock.near");
    assert_eq!(call.method_name, "get_locked_amount");
    assert_eq!(call.args_base64, "");
}

#[test]
fn liquid_balance_call_names_the_method() {
    let call = liquid_owners_balance_call("lock.near", 78);
    assert_eq!(call.block, BlockRef::Height(78));
    assert_eq!(call.account_id, "lock.near");
    assert_eq!(call.method_name, "get_liquid_owners_balance");
    assert_eq!(call.args_base64, "");
}

#[test]
fn staking_pool_call_goes_to_the_final_block() {
    let call = staking_pool_call("lock.near");
    assert_eq!(call.block, BlockRef::Final);
    assert_eq!(call.account_id, "lock.near");
    assert_eq!(call.method_name, "get_staking_pool_account_id");
    assert_eq!(call.args_base64, "e30=");
    assert_eq!(encode_text("{}"), Some(call.args_base64));
}

#[test]
fn account_in_pool_call_encodes_the_account() {
    let call = account_in_pool_call("alice.near", "pool.near", 9).unwrap();
    assert_eq!(call.block, BlockRef::Height(9));
    assert_eq!(call.account_id, "pool.near");
    assert_eq!(call.method_name, "get_account");
    assert_eq!(call.args_base64, "eyJhY2NvdW50X2lkIjoiYWxpY2UubmVhciJ9");
}

#[test]
fn account_in_pool_call_escapes_the_account() {
    let call = account_in_pool_call("a\"b", "pool.near", 9).unwrap();
    assert_eq!(call.args_base64, "eyJhY2NvdW50X2lkIjoiYVwiYiJ9");
}

#[test]
fn account_in_pool_call_with_takes_the_arguments_as_they_are() {
    let call = account_in_pool_call_with(Some(String::from("e30=")), "pool.near", 3).unwrap();
    assert_eq!(call.block, BlockRef::Height(3));
    assert_eq!(call.account_id, "pool.near");
    assert_eq!(call.method_name, "get_account");
    assert_eq!(call.args_base64, "e30=");
    assert!(account_in_pool_call_with(None, "pool.near", 3).is_none());
}

#[test]
fn encode_text_is_base64_with_padding() {
    assert_eq!(encode_text(""), Some(String::new()));
    assert_eq!(encode_text("f"), Some(String::from("Zg==")));
    assert_eq!(encode_text("fo"), Some(String::from("Zm8=")));
    assert_eq!(encode_text("foo"), Some(String::from("Zm9v")));
    assert_eq!(encode_text("foobar"), Some(String::from("Zm9vYmFy")));
    assert_eq!(encode_text("\u{e9}"), Some(String::from("w6k=")));
}
