//! A whole portfolio: one row per entry, in a fixed order, and the totals
//! over the rows.

use vstd::prelude::*;
use vstd::string::*;
use crate::order::{is_stable_order, key_view, key_views, places, stable_order};
use crate::primitives::{clone_text, Account, ChainSnapshot};
use crate::reward::{delta_of, reward_diff, RewardDelta};
use crate::snapshot::{collect_account_data, snapshot_of, QueryResults, SnapshotError};
use crate::units::{HumanAmount, YOCTO_PER_TOKEN};

verus! {

/// An entry of the portfolio with the answers to its balance queries at the
/// current and at the reference block.
#[derive(Debug, Clone)]
pub struct PortfolioEntry {
    pub account: Account,
    pub current: QueryResults,
    pub reference: QueryResults,
}

/// Which of the two snapshots of an entry is meant.
#[derive(Clone, Copy, Debug, PartialEq, Eq, Structural)]
pub enum Stage {
    /// The snapshot at the current block.
    Current,
    /// The snapshot at the reference block.
    Reference,
}

/// Why an entry has no figures: the snapshot that failed, and the reason.
#[derive(Clone, Copy, Debug, PartialEq, Eq, Structural)]
pub struct RowFailure {
    pub stage: Stage,
    pub error: SnapshotError,
}

/// The figures of an entry, all in yocto-units.
#[derive(Debug, Clone)]
pub struct RowFigures {
    /// The reward at the current block.
    pub reward: u128,
    /// The change of the reward since the reference block.
    pub delta: RewardDelta,
    /// The liquid balance at the current block.
    pub liquid: u128,
    /// The unstaked balance at the current block.
    pub unstaked: u128,
    /// Whether the unstaked balance can be withdrawn.
    pub can_withdraw: bool,
    /// The native balance at the current block.
    pub native: u128,
    /// The staking pool that the account delegates to.
    pub pool_account_id: String,
}

/// What the portfolio reports of one entry.
#[derive(Debug)]
pub struct AccountRow {
    /// The place of the entry in the input.
    pub position: usize,
    pub account_id: String,
    /// The figures, or why there are none.
    pub outcome: Result<RowFigures, RowFailure>,
}

/// The row of `entry`, which stands at `position` in the input. The current
/// snapshot is tried first; the first snapshot that fails is reported.
pub open spec fn row_of(
    entry: PortfolioEntry,
    position: usize,
    current: ChainSnapshot,
    reference: ChainSnapshot,
) -> AccountRow {
    let outcome = match snapshot_of(entry.account, current, entry.current) {
        Err(error) => Err(RowFailure { stage: Stage::Current, error }),
        Ok(now) => match snapshot_of(entry.account, reference, entry.reference) {
            Err(error) => Err(RowFailure { stage: Stage::Reference, error }),
            Ok(then) => Ok(
                RowFigures {
                    reward: now.reward_magnitude,
                    delta: delta_of(now.reward_magnitude, then.reward_magnitude),
                    liquid: now.liquid_magnitude,
                    unstaked: now.unstaked_magnitude,
                    can_withdraw: now.can_withdraw,
                    native: now.native_magnitude,
                    pool_account_id: entry.account.pool_account_id->0,
                },
            ),
        },
    };
    AccountRow { position, account_id: entry.account.account_id, outcome }
}

/// Builds the row of `entry` from its two snapshots.
pub fn build_row(
    entry: &PortfolioEntry,
    position: usize,
    current: ChainSnapshot,
    reference: ChainSnapshot,
) -> (row: AccountRow)
    ensures
        row == row_of(*entry, position, current, reference),
{
    let outcome = match collect_account_data(&entry.account, current, &entry.current) {
        Err(error) => Err(RowFailure { stage: Stage::Current, error }),
        Ok(now) => match collect_account_data(&entry.account, reference, &entry.reference) {
            Err(error) => Err(RowFailure { stage: Stage::Reference, error }),
            Ok(then) => Ok(
                RowFigures {
                    reward: now.reward_magnitude,
                    delta: reward_diff(now.reward_magnitude, then.reward_magnitude),
                    liquid: now.liquid_magnitude,
                    unstaked: now.unstaked_magnitude,
                    can_withdraw: now.can_withdraw,
                    native: now.native_magnitude,
                    pool_account_id: clone_text(&entry.account.pool_account_id).unwrap(),
                },
            ),
        },
    };
    AccountRow { position, account_id: entry.account.account_id.clone(), outcome }
}

/// What a row adds to the sum of rewards: its reward, if it has figures.
pub open spec fn row_reward(row: AccountRow) -> nat {
    match row.outcome {
        Ok(figures) => figures.reward as nat,
        Err(_) => 0,
    }
}

/// What a row adds to the sum of liquid balances when the accounts in `seen`
/// have been counted: its liquid balance, if it has figures and its account
/// is not among them.
pub open spec fn row_liquid(seen: Set<Seq<char>>, row: AccountRow) -> nat {
    match row.outcome {
        Ok(figures) => if seen.contains(row.account_id@) {
            0
        } else {
            figures.liquid as nat
        },
        Err(_) => 0,
    }
}

/// The accounts in `seen` and the account of `row`, if the row has figures.
pub open spec fn seen_after(seen: Set<Seq<char>>, row: AccountRow) -> Set<Seq<char>> {
    if row.outcome is Ok {
        seen.insert(row.account_id@)
    } else {
        seen
    }
}

/// The sum of the rewards of `rows`.
pub open spec fn reward_total(rows: Seq<AccountRow>) -> nat
    decreases rows.len(),
{
    if rows.len() == 0 {
        0
    } else {
        reward_total(rows.drop_last()) + row_reward(rows.last())
    }
}

/// The accounts whose liquid balance `rows` have counted.
pub open spec fn contributed(rows: Seq<AccountRow>) -> Set<Seq<char>>
    decreases rows.len(),
{
    if rows.len() == 0 {
        Set::empty()
    } else {
        seen_after(contributed(rows.drop_last()), rows.last())
    }
}

/// The sum of the liquid balances of `rows`, each account counted with the
/// first of its rows that has figures.
pub open spec fn liquid_total(rows: Seq<AccountRow>) -> nat
    decreases rows.len(),
{
    if rows.len() == 0 {
        0
    } else {
        liquid_total(rows.drop_last()) + row_liquid(contributed(rows.drop_last()), rows.last())
    }
}

/// A row whose account has been counted before adds its reward to the sum
/// of rewards and nothing to the sum of liquid balances.
pub proof fn lemma_counted_account_adds_no_liquid(rows: Seq<AccountRow>, row: AccountRow)
    requires
        contributed(rows).contains(row.account_id@),
    ensures
        liquid_total(rows.push(row)) == liquid_total(rows),
        reward_total(rows.push(row)) == reward_total(rows) + row_reward(row),
        contributed(rows.push(row)) == contributed(rows),
{
    assert(rows.push(row).drop_last() =~= rows);
    assert(contributed(rows).insert(row.account_id@) =~= contributed(rows));
}

/// Two rows with figures that share one account: after any rows, the sum of
/// rewards grows by both rewards, and the sum of liquid balances by what the
/// first row alone adds, which is its liquid balance where the account was
/// not counted before.
pub proof fn lemma_shared_account_counts_once(
    rows: Seq<AccountRow>,
    first: AccountRow,
    second: AccountRow,
)
    requires
        first.outcome is Ok,
        second.outcome is Ok,
        first.account_id@ == second.account_id@,
    ensures
        reward_total(rows.push(first).push(second)) == reward_total(rows)
            + first.outcome->Ok_0.reward + second.outcome->Ok_0.reward,
        liquid_total(rows.push(first).push(second)) == liquid_total(rows.push(first)),
        liquid_total(rows.push(first).push(second)) == liquid_total(rows) + row_liquid(
            contributed(rows),
            first,
        ),
        !contributed(rows).contains(first.account_id@) ==> liquid_total(
            rows.push(first).push(second),
        ) == liquid_total(rows) + first.outcome->Ok_0.liquid,
{
    assert(rows.push(first).drop_last() =~= rows);
    assert(contributed(rows.push(first)).contains(second.account_id@));
    lemma_counted_account_adds_no_liquid(rows.push(first), second);
}

/// The running totals of one pass over a portfolio.
#[derive(Debug, Clone)]
pub struct PortfolioTotals {
    /// The sum of the rewards.
    pub reward_sum: HumanAmount,
    /// The sum of the liquid balances, each account counted once.
    pub liquid_sum: HumanAmount,
    /// The accounts whose liquid balance has been counted.
    pub counted: Vec<String>,
    /// The number of rows recorded.
    pub entries: usize,
}

/// Whether `id` is among `counted`.
pub open spec fn is_counted(counted: Seq<String>, id: Seq<char>) -> bool {
    exists|i: int| 0 <= i < counted.len() && (#[trigger] counted[i])@ == id
}

impl PortfolioTotals {
    /// The accounts whose liquid balance has been counted, as a set.
    pub open spec fn ledger(&self) -> Set<Seq<char>> {
        Set::new(|id: Seq<char>| is_counted(self.counted@, id))
    }

    /// Both sums are well-formed and below what `entries` rows can give, and
    /// no account is listed twice.
    pub open spec fn wf(&self) -> bool {
        &&& self.reward_sum.wf()
        &&& self.liquid_sum.wf()
        &&& self.reward_sum.yocto() <= self.entries * u128::MAX
        &&& self.liquid_sum.yocto() <= self.entries * u128::MAX
        &&& forall|i: int, j: int|
            0 <= i < j < self.counted@.len() ==> (#[trigger] self.counted@[i])@ != (
            #[trigger] self.counted@[j])@
    }

    /// Whether `self` holds the totals of `rows`.
    pub open spec fn totals_of(&self, rows: Seq<AccountRow>) -> bool {
        &&& self.wf()
        &&& self.entries == rows.len()
        &&& self.reward_sum.yocto() == reward_total(rows)
        &&& self.liquid_sum.yocto() == liquid_total(rows)
        &&& self.ledger() == contributed(rows)
    }

    /// The totals of no rows.
    pub fn new() -> (r: PortfolioTotals)
        ensures
            r.totals_of(Seq::empty()),
            r.reward_sum.yocto() == 0,
            r.liquid_sum.yocto() == 0,
            r.ledger() == Set::<Seq<char>>::empty(),
    {
        let r = PortfolioTotals {
            reward_sum: HumanAmount::zero(),
            liquid_sum: HumanAmount::zero(),
            counted: Vec::new(),
            entries: 0,
        };
        assert(r.ledger() =~= Set::<Seq<char>>::empty());
        r
    }

    /// Whether the liquid balance of the account `id` has been counted.
    pub fn has_counted(&self, id: &String) -> (r: bool)
        ensures
            r == self.ledger().contains(id@),
    {
        let mut i: usize = 0;
        while i < self.counted.len()
            invariant
                i <= self.counted@.len(),
                forall|k: int| 0 <= k < i ==> (#[trigger] self.counted@[k])@ != id@,
            decreases self.counted@.len() - i,
        {
            if self.counted[i] == *id {
                return true;
            }
            i += 1;
        }
        false
    }

    /// Adds a row to the totals. Its reward is added in any case; its liquid
    /// balance only if its account has not been counted before, and the
    /// account counts as counted from then on. A row without figures adds
    /// nothing.
    pub fn record(&mut self, row: &AccountRow)
        requires
            old(self).wf(),
            old(self).entries < usize::MAX,
        ensures
            final(self).wf(),
            final(self).entries == old(self).entries + 1,
            final(self).reward_sum.yocto() == old(self).reward_sum.yocto() + row_reward(*row),
            final(self).liquid_sum.yocto() == old(self).liquid_sum.yocto() + row_liquid(
                old(self).ledger(),
                *row,
            ),
            final(self).ledger() == seen_after(old(self).ledger(), *row),
            forall|rows: Seq<AccountRow>| #[trigger]
                old(self).totals_of(rows) ==> final(self).totals_of(rows.push(*row)),
    {
        let ghost before = *self;
        proof {
            lemma_room_for_one_more(self.reward_sum, self.entries, 0);
            lemma_room_for_one_more(self.liquid_sum, self.entries, 0);
        }
        if let Ok(figures) = &row.outcome {
            proof {
                lemma_room_for_one_more(self.reward_sum, self.entries, figures.reward);
                lemma_room_for_one_more(self.liquid_sum, self.entries, figures.liquid);
            }
            self.reward_sum = self.reward_sum.checked_add_yocto(figures.reward).unwrap();
            if !self.has_counted(&row.account_id) {
                self.liquid_sum = self.liquid_sum.checked_add_yocto(figures.liquid).unwrap();
                self.counted.push(row.account_id.clone());
                proof {
                    let id = row.account_id@;
                    assert(before.counted@ == self.counted@.drop_last());
                    assert forall|s: Seq<char>| #[trigger]
                        self.ledger().contains(s) == before.ledger().insert(id).contains(s) by {
                        if is_counted(self.counted@, s) {
                            let i = choose|i: int|
                                0 <= i < self.counted@.len() && (#[trigger] self.counted@[i])@ == s;
                            if i < before.counted@.len() {
                                assert(before.counted@[i]@ == s);
                            }
                        }
                        if is_counted(before.counted@, s) {
                            let i = choose|i: int|
                                0 <= i < before.counted@.len() && (#[trigger] before.counted@[i])@
                                    == s;
                            assert(self.counted@[i]@ == s);
                        }
                        if s == id {
                            assert(self.counted@[self.counted@.len() - 1]@ == s);
                        }
                    }
                    assert(self.ledger() =~= before.ledger().insert(id));
                    assert forall|i: int, j: int|
                        0 <= i < j < self.counted@.len() implies (#[trigger] self.counted@[i])@ != (
                    #[trigger] self.counted@[j])@ by {
                        if j == self.counted@.len() - 1 {
                            assert(before.counted@[i]@ != id);
                        }
                    }
                }
            } else {
                assert(self.ledger() =~= before.ledger().insert(row.account_id@));
            }
        }
        self.entries = self.entries + 1;
        proof {
            assert forall|rows: Seq<AccountRow>| #[trigger]
                before.totals_of(rows) implies self.totals_of(rows.push(*row)) by {
                assert(rows.push(*row).drop_last() =~= rows);
            }
        }
    }
}

/// A sum of at most `entries` magnitudes, with one more magnitude added,
/// still has a whole part that fits.
proof fn lemma_room_for_one_more(sum: HumanAmount, entries: usize, m: u128)
    requires
        sum.yocto() <= entries * u128::MAX,
        entries < usize::MAX,
    ensures
        (sum.yocto() + m) / (YOCTO_PER_TOKEN as int) <= u128::MAX,
        sum.yocto() + m <= (entries + 1) * u128::MAX,
{
    let s = YOCTO_PER_TOKEN as int;
    let t = sum.yocto() + m;
    let w: int = 0x1_0000_0000_0000_0000_0000_0000_0000_0000int;
    assert(t <= (entries + 1) * (w - 1)) by (nonlinear_arith)
        requires
            t <= entries * (w - 1) + (w - 1),
    ;
    assert(t < s * w) by (nonlinear_arith)
        requires
            t <= (entries + 1) * (w - 1),
            0 <= entries + 1 <= 0x1_0000_0000_0000_0000,
            s == 1_000_000_000_000_000_000_000_000,
            w == 0x1_0000_0000_0000_0000_0000_0000_0000_0000int,
    ;
    assert(t / s < w) by (nonlinear_arith)
        requires
            0 <= t < s * w,
            s > 0,
    ;
}

/// The rows of a portfolio and the totals over them.
#[derive(Debug)]
pub struct Portfolio {
    pub rows: Vec<AccountRow>,
    pub totals: PortfolioTotals,
}

/// The labels of the entries.
pub open spec fn entry_keys(entries: Seq<PortfolioEntry>) -> Seq<Option<Seq<char>>> {
    entries.map_values(|e: PortfolioEntry| key_view(e.account.key))
}

/// The places in the input that the rows stand for.
pub open spec fn row_positions(rows: Seq<AccountRow>) -> Seq<int> {
    rows.map_values(|r: AccountRow| r.position as int)
}

/// Reports a portfolio: one row per entry, sorted by label with entries of
/// equal labels in the order of the input, and the totals over the rows in
/// that order. An entry without a snapshot gets a row that says why, and
/// adds nothing to the totals.
pub fn aggregate(entries: &Vec<PortfolioEntry>, current: ChainSnapshot, reference: ChainSnapshot) -> (r:
    Portfolio)
    ensures
        r.rows@.len() == entries@.len(),
        is_stable_order(entry_keys(entries@), row_positions(r.rows@)),
        forall|k: int|
            0 <= k < r.rows@.len() ==> #[trigger] r.rows@[k] == row_of(
                entries@[r.rows@[k].position as int],
                r.rows@[k].position,
                current,
                reference,
            ),
        r.totals.totals_of(r.rows@),
        r.totals.reward_sum.yocto() == reward_total(r.rows@),
        r.totals.liquid_sum.yocto() == liquid_total(r.rows@),
{
    let n: usize = entries.len();
    let mut keys: Vec<Option<String>> = Vec::new();
    let mut i: usize = 0;
    while i < n
        invariant
            i <= n,
            n == entries@.len(),
            keys@.len() == i,
            forall|k: int| 0 <= k < i ==> #[trigger] keys@[k] == entries@[k].account.key,
        decreases n - i,
    {
        keys.push(clone_text(&entries[i].account.key));
        i += 1;
    }
    assert(key_views(keys@) =~= entry_keys(entries@));
    let order = stable_order(&keys);
    let mut rows: Vec<AccountRow> = Vec::new();
    let mut totals = PortfolioTotals::new();
    let mut k: usize = 0;
    while k < n
        invariant
            k <= n,
            n == entries@.len(),
            order@.len() == n,
            is_stable_order(entry_keys(entries@), places(order@)),
            rows@.len() == k,
            totals.totals_of(rows@),
            forall|a: int|
                0 <= a < k ==> (#[trigger] rows@[a]).position == order@[a] && rows@[a] == row_of(
                    entries@[order@[a] as int],
                    order@[a],
                    current,
                    reference,
                ),
        decreases n - k,
    {
        let position: usize = order[k];
        assert(0 <= places(order@)[k as int] < n);
        let row = build_row(&entries[position], position, current, reference);
        totals.record(&row);
        rows.push(row);
        k += 1;
    }
    assert(row_positions(rows@) =~= places(order@));
    Portfolio { rows, totals }
}

} // verus!
