use near_rewards::portfolio::{
    aggregate, build_row, AccountRow, PortfolioEntry, PortfolioTotals, RowFailure, RowFigures, Stage,
};
use near_rewards::primitives::{
    Account, AccountInPoolResult, ChainSnapshot, ResponseResult, ViewAccountResult,
};
use near_rewards::reward::{RewardDelta, Sign};
use near_rewards::snapshot::{QueryResults, SnapshotError};
use near_rewards::units::HumanAmount;

const NEAR: u128 = 1_000_000_000_000_000_000_000_000;

fn current() -> ChainSnapshot {
    ChainSnapshot { height: 22600, epoch_start_height: 1000 }
}

fn reference() -> ChainSnapshot {
    ChainSnapshot { height: 994, epoch_start_height: 1000 }
}

fn results(staked: u128, unstaked: u128, locked: u128, native: u128, liquid: Option<u128>) -> QueryResults {
    QueryResults {
        stake: Some(AccountInPoolResult {
            account_id: String::from("x"),
            unstaked_balance: format!("{}", unstaked),
            staked_balance: format!("{}", staked),
            can_withdraw: unstaked > 0,
        }),
        locked: Some(ResponseResult {
            block_hash: String::new(),
            block_height: 0,
            result: format!("\"{}\"", locked).into_bytes(),
        }),
        native: Some(ViewAccountResult { amount: format!("{}", native) }),
        liquid: liquid.map(|v| ResponseResult {
            block_hash: String::new(),
            block_height: 0,
            result: format!("\"{}\"", v).into_bytes(),
        }),
    }
}

fn entry(key: &str, id: &str, pool: Option<&str>, now: QueryResults, then: QueryResults) -> PortfolioEntry {
    PortfolioEntry {
        account: Account {
            key: Some(String::from(key)),
            account_id: String::from(id),
            pool_account_id: pool.map(String::from),
            locked_amount: None,
        },
        current: now,
        reference: then,
    }
}

fn figures(row: &AccountRow) -> &RowFigures {
    row.outcome.as_ref().unwrap()
}

fn row(id: &str, reward: u128, liquid: u128) -> AccountRow {
    AccountRow {
        position: 0,
        account_id: String::from(id),
        outcome: Ok(RowFigures {
            reward,
            delta: RewardDelta { sign: Sign::Zero, magnitude: 0 },
            liquid,
            unstaked: 0,
            can_withdraw: false,
            native: 0,
            pool_account_id: String::from("p"),
        }),
    }
}

#[test]
fn a_row_holds_the_figures_of_the_current_block() {
    let e = entry(
        "k",
        "alice.near",
        Some("pool.near"),
        results(100 * NEAR, 2 * NEAR, 0, 5 * NEAR, None),
        results(99 * NEAR, 0, 0, 5 * NEAR, None),
    );
    let r = build_row(&e, 3, current(), reference());
    assert_eq!(r.position, 3);
    assert_eq!(r.account_id, "alice.near");
    let f = figures(&r);
    assert_eq!(f.reward, 102 * NEAR);
    assert_eq!(f.delta, RewardDelta { sign: Sign::Positive, magnitude: 3 * NEAR });
    assert_eq!(f.liquid, 5 * NEAR);
    assert_eq!(f.unstaked, 2 * NEAR);
    assert!(f.can_withdraw);
    assert_eq!(f.native, 5 * NEAR);
    assert_eq!(f.pool_account_id, "pool.near");
}

#[test]
fn a_row_reports_a_shrunk_reward() {
    let e = entry("k", "a", Some("p"), results(10, 0, 0, 0, None), results(25, 0, 0, 0, None));
    let r = build_row(&e, 0, current(), reference());
    assert_eq!(figures(&r).delta, RewardDelta { sign: Sign::Negative, magnitude: 15 });
}

#[test]
fn a_row_reports_an_unchanged_reward() {
    let e = entry("k", "a", Some("p"), results(10, 0, 0, 0, None), results(4, 6, 0, 9, None));
    let r = build_row(&e, 0, current(), reference());
    assert_eq!(figures(&r).delta, RewardDelta { sign: Sign::Zero, magnitude: 0 });
}

#[test]
fn a_row_says_which_snapshot_failed() {
    let mut e = entry("k", "a", Some("p"), results(1, 0, 0, 0, None), results(1, 0, 0, 0, None));
    e.reference.native = None;
    let r = build_row(&e, 0, current(), reference());
    assert_eq!(
        r.outcome.err(),
        Some(RowFailure { stage: Stage::Reference, error: SnapshotError::NativeUnavailable })
    );
    e.current.stake = None;
    let r = build_row(&e, 0, current(), reference());
    assert_eq!(
        r.outcome.err(),
        Some(RowFailure { stage: Stage::Current, error: SnapshotError::StakeUnavailable })
    );
    assert_eq!(r.account_id, "a");
}

#[test]
fn rows_come_out_sorted_by_label() {
    let entries = vec![
        entry("b", "second.near", Some("p"), results(2, 0, 0, 20, None), results(2, 0, 0, 0, None)),
        entry("a", "first.near", Some("p"), results(1, 0, 0, 10, None), results(1, 0, 0, 0, None)),
    ];
    let portfolio = aggregate(&entries, current(), reference());
    let ids: Vec<&str> = portfolio.rows.iter().map(|r| r.account_id.as_str()).collect();
    assert_eq!(ids, vec!["first.near", "second.near"]);
    let positions: Vec<usize> = portfolio.rows.iter().map(|r| r.position).collect();
    assert_eq!(positions, vec![1, 0]);
    assert_eq!(portfolio.totals.counted, vec![String::from("first.near"), String::from("second.near")]);
    assert_eq!(portfolio.totals.reward_sum, HumanAmount { whole: 0, frac: 3 });
    assert_eq!(portfolio.totals.liquid_sum, HumanAmount { whole: 0, frac: 30 });
}

#[test]
fn rows_already_in_order_stay_in_order() {
    let entries = vec![
        entry("a", "first.near", Some("p"), results(1, 0, 0, 10, None), results(1, 0, 0, 0, None)),
        entry("b", "second.near", Some("p"), results(2, 0, 0, 20, None), results(2, 0, 0, 0, None)),
    ];
    let portfolio = aggregate(&entries, current(), reference());
    let ids: Vec<&str> = portfolio.rows.iter().map(|r| r.account_id.as_str()).collect();
    assert_eq!(ids, vec!["first.near", "second.near"]);
}

#[test]
fn a_shared_account_is_counted_once_in_the_liquid_sum() {
    let entries = vec![
        entry(
            "a",
            "shared.near",
            Some("pool-one.near"),
            results(10 * NEAR, 0, 0, 7 * NEAR, Some(4 * NEAR)),
            results(9 * NEAR, 0, 0, 7 * NEAR, Some(4 * NEAR)),
        ),
        entry(
            "b",
            "shared.near",
            Some("pool-two.near"),
            results(20 * NEAR, 0, 0, 7 * NEAR, Some(4 * NEAR)),
            results(20 * NEAR, 0, 0, 7 * NEAR, Some(4 * NEAR)),
        ),
    ];
    let portfolio = aggregate(&entries, current(), reference());
    assert_eq!(portfolio.rows.len(), 2);
    assert_eq!(portfolio.totals.reward_sum, HumanAmount { whole: 30, frac: 0 });
    assert_eq!(portfolio.totals.liquid_sum, HumanAmount { whole: 4, frac: 0 });
    assert_eq!(portfolio.totals.counted, vec![String::from("shared.near")]);
    assert_eq!(portfolio.totals.entries, 2);
    assert_eq!(figures(&portfolio.rows[0]).liquid, 4 * NEAR);
    assert_eq!(figures(&portfolio.rows[1]).liquid, 4 * NEAR);
    assert_eq!(figures(&portfolio.rows[0]).pool_account_id, "pool-one.near");
    assert_eq!(figures(&portfolio.rows[1]).pool_account_id, "pool-two.near");
}

#[test]
fn the_first_row_in_label_order_gives_the_shared_liquid_balance() {
    let entries = vec![
        entry("z", "shared.near", Some("p"), results(1, 0, 0, 0, Some(100)), results(1, 0, 0, 0, None)),
        entry("y", "shared.near", Some("q"), results(1, 0, 0, 0, Some(5)), results(1, 0, 0, 0, None)),
    ];
    let portfolio = aggregate(&entries, current(), reference());
    assert_eq!(portfolio.totals.liquid_sum, HumanAmount { whole: 0, frac: 5 });
    assert_eq!(portfolio.totals.reward_sum, HumanAmount { whole: 0, frac: 2 });
}

#[test]
fn a_failed_account_does_not_stop_the_run() {
    let entries = vec![
        entry("a", "lost.near", None, results(5, 0, 0, 1, None), results(5, 0, 0, 1, None)),
        entry("b", "fine.near", Some("p"), results(7, 0, 0, 2, None), results(7, 0, 0, 2, None)),
    ];
    let portfolio = aggregate(&entries, current(), reference());
    assert_eq!(portfolio.rows.len(), 2);
    assert_eq!(portfolio.rows[0].account_id, "lost.near");
    assert_eq!(
        portfolio.rows[0].outcome.as_ref().err(),
        Some(&RowFailure { stage: Stage::Current, error: SnapshotError::PoolUnresolved })
    );
    assert_eq!(figures(&portfolio.rows[1]).reward, 7);
    assert_eq!(portfolio.totals.reward_sum, HumanAmount { whole: 0, frac: 7 });
    assert_eq!(portfolio.totals.liquid_sum, HumanAmount { whole: 0, frac: 2 });
    assert_eq!(portfolio.totals.counted, vec![String::from("fine.near")]);
    assert_eq!(portfolio.totals.entries, 2);
}

#[test]
fn a_failed_row_does_not_use_up_the_shared_liquid_balance() {
    let mut broken = entry("a", "shared.near", Some("p"), results(5, 0, 0, 1, Some(3)), results(5, 0, 0, 1, None));
    broken.current.native = None;
    let entries = vec![
        broken,
        entry("b", "shared.near", Some("q"), results(7, 0, 0, 2, Some(9)), results(7, 0, 0, 2, None)),
    ];
    let portfolio = aggregate(&entries, current(), reference());
    assert!(portfolio.rows[0].outcome.is_err());
    assert_eq!(portfolio.totals.liquid_sum, HumanAmount { whole: 0, frac: 9 });
    assert_eq!(portfolio.totals.reward_sum, HumanAmount { whole: 0, frac: 7 });
}

#[test]
fn an_empty_portfolio_has_empty_totals() {
    let portfolio = aggregate(&Vec::new(), current(), reference());
    assert!(portfolio.rows.is_empty());
    assert_eq!(portfolio.totals.reward_sum, HumanAmount { whole: 0, frac: 0 });
    assert_eq!(portfolio.totals.liquid_sum, HumanAmount { whole: 0, frac: 0 });
    assert!(portfolio.totals.counted.is_empty());
    assert_eq!(portfolio.totals.entries, 0);
}

#[test]
fn sums_carry_into_whole_tokens() {
    let half = NEAR / 2;
    let entries = vec![
        entry("a", "one.near", Some("p"), results(half, 0, 0, half + 1, None), results(0, 0, 0, 0, None)),
        entry("b", "two.near", Some("p"), results(half, 0, 0, half, None), results(0, 0, 0, 0, None)),
        entry("c", "three.near", Some("p"), results(half, 0, 0, 0, None), results(0, 0, 0, 0, None)),
    ];
    let portfolio = aggregate(&entries, current(), reference());
    assert_eq!(portfolio.totals.reward_sum, HumanAmount { whole: 1, frac: half });
    assert_eq!(portfolio.totals.liquid_sum, HumanAmount { whole: 1, frac: 1 });
}

#[test]
fn sums_of_the_largest_rewards_do_not_overflow() {
    let entries = vec![
        entry("a", "one.near", Some("p"), results(u128::MAX, 0, 0, u128::MAX, None), results(0, 0, 0, 0, None)),
        entry("b", "two.near", Some("p"), results(u128::MAX, 0, 0, u128::MAX, None), results(0, 0, 0, 0, None)),
    ];
    let portfolio = aggregate(&entries, current(), reference());
    let expected = HumanAmount { whole: 680564733841876, frac: 926926749214863536422910 };
    assert_eq!(portfolio.totals.reward_sum, expected);
    assert_eq!(portfolio.totals.liquid_sum, expected);
}

#[test]
fn totals_record_rows_one_by_one() {
    let mut totals = PortfolioTotals::new();
    assert!(!totals.has_counted(&String::from("a")));
    totals.record(&row("a", 10, 3));
    assert!(totals.has_counted(&String::from("a")));
    assert!(!totals.has_counted(&String::from("b")));
    totals.record(&row("a", 20, 5));
    totals.record(&row("b", 1, 1));
    assert_eq!(totals.reward_sum, HumanAmount { whole: 0, frac: 31 });
    assert_eq!(totals.liquid_sum, HumanAmount { whole: 0, frac: 4 });
    assert_eq!(totals.counted, vec![String::from("a"), String::from("b")]);
    assert_eq!(totals.entries, 3);
}

#[test]
fn totals_skip_a_row_without_figures() {
    let mut totals = PortfolioTotals::new();
    let failed = AccountRow {
        position: 0,
        account_id: String::from("a"),
        outcome: Err(RowFailure { stage: Stage::Current, error: SnapshotError::StakeUnavailable }),
    };
    totals.record(&failed);
    assert_eq!(totals.reward_sum, HumanAmount { whole: 0, frac: 0 });
    assert_eq!(totals.liquid_sum, HumanAmount { whole: 0, frac: 0 });
    assert!(!totals.has_counted(&String::from("a")));
    assert_eq!(totals.entries, 1);
}
