//! Business operations, their results, and database snapshots.
//!
//! Money is counted in integer minor units (hundredths of the currency
//! unit). Sums saturate at the bounds of `i64` instead of overflowing.

use vstd::prelude::*;

use crate::address::NodeAddr;
use crate::errors::VerifyError;

verus! {

/// `x` clamped into the range of `i64`.
pub open spec fn sat(x: int) -> i64 {
    if x > i64::MAX {
        i64::MAX
    } else if x < i64::MIN {
        i64::MIN
    } else {
        x as i64
    }
}

/// Adds two amounts, saturating at the bounds of `i64`.
pub fn add_amount(a: i64, b: i64) -> (r: i64)
    ensures
        r == sat(a + b),
{
    let s: i128 = a as i128 + b as i128;
    if s > i64::MAX as i128 {
        i64::MAX
    } else if s < i64::MIN as i128 {
        i64::MIN
    } else {
        s as i64
    }
}

/// Whether charging `amount` on top of `consumed` stays within `limit`.
pub open spec fn within_limit(limit: Option<i64>, consumed: i64, amount: i64) -> bool {
    match limit {
        None => true,
        Some(l) => consumed + amount <= l,
    }
}

/// Whether a new limit may replace the current one, given what was consumed.
pub open spec fn limit_allows(new_limit: Option<i64>, consumed: i64) -> bool {
    match new_limit {
        None => true,
        Some(l) => l >= consumed,
    }
}

/// Decides whether charging `amount` on top of `consumed` stays within `limit`.
pub fn fits_limit(limit: Option<i64>, consumed: i64, amount: i64) -> (b: bool)
    ensures
        b == within_limit(limit, consumed, amount),
{
    match limit {
        None => true,
        Some(l) => (consumed as i128) + (amount as i128) <= (l as i128),
    }
}

/// Decides whether a new limit may replace the current one.
pub fn allows_limit(new_limit: Option<i64>, consumed: i64) -> (b: bool)
    ensures
        b == limit_allows(new_limit, consumed),
{
    match new_limit {
        None => true,
        Some(l) => l >= consumed,
    }
}

/// Saturating sum of the amounts of a list of `(card_id, amount)` pairs,
/// added from first to last.
pub open spec fn sat_sum(s: Seq<(u64, i64)>) -> i64
    decreases s.len(),
{
    if s.len() == 0 {
        0
    } else {
        sat(sat_sum(s.drop_last()) + s.last().1)
    }
}

/// Saturating sum of the amounts of a list of `(card_id, amount)` pairs.
pub fn sum_spent(per_card_spent: &Vec<(u64, i64)>) -> (total: i64)
    ensures
        total == sat_sum(per_card_spent@),
{
    let mut total: i64 = 0;
    let mut i: usize = 0;
    while i < per_card_spent.len()
        invariant
            0 <= i <= per_card_spent@.len(),
            total == sat_sum(per_card_spent@.subrange(0, i as int)),
        decreases per_card_spent@.len() - i,
    {
        let (_, amount) = per_card_spent[i];
        proof {
            let next = per_card_spent@.subrange(0, i + 1);
            assert(next.drop_last() =~= per_card_spent@.subrange(0, i as int));
        }
        total = add_amount(total, amount);
        i = i + 1;
    }
    assert(per_card_spent@.subrange(0, per_card_spent@.len() as int) =~= per_card_spent@);
    total
}

/// State of one account inside a database snapshot.
#[derive(Clone, Copy, Debug, PartialEq, Eq, Structural)]
pub struct AccountSnapshot {
    pub account_id: u64,
    pub limit: Option<i64>,
    pub consumed: i64,
}

/// State of one card inside a database snapshot.
#[derive(Clone, Copy, Debug, PartialEq, Eq, Structural)]
pub struct CardSnapshot {
    pub account_id: u64,
    pub card_id: u64,
    pub limit: Option<i64>,
    pub consumed: i64,
}

/// The whole business state of a node, as sent to a node that joins.
#[derive(Debug)]
pub struct DatabaseSnapshot {
    pub addr: NodeAddr,
    pub accounts: Vec<AccountSnapshot>,
    pub cards: Vec<CardSnapshot>,
}

/// A business operation.
#[derive(Debug)]
pub enum Operation {
    /// Charge an amount to a card (affects card and account).
    Charge { account_id: u64, card_id: u64, amount: i64, from_offline_station: bool },
    /// Change the account-wide limit (`None` means no limit).
    LimitAccount { account_id: u64, new_limit: Option<i64> },
    /// Change the limit of one card (`None` means no limit).
    LimitCard { account_id: u64, card_id: u64, new_limit: Option<i64> },
    /// Report the consumption of an account and of each of its cards.
    AccountQuery { account_id: u64 },
    /// Report like `AccountQuery`, then reset the consumption to zero.
    Bill { account_id: u64, period: Option<String> },
    /// Collect a snapshot of the whole database for the node at `addr`.
    GetDatabase { addr: NodeAddr },
    /// Replace the state of the accounts and cards named in a snapshot.
    ReplaceDatabase { snapshot: DatabaseSnapshot },
}

/// What a limit applies to.
#[derive(Clone, Copy, Debug, PartialEq, Eq, Structural)]
pub enum LimitScope {
    Card,
    Account,
}

/// Result of a charge.
#[derive(Clone, Copy, Debug, PartialEq, Eq, Structural)]
pub enum ChargeResult {
    Accepted,
    Failed(VerifyError),
}

/// Result of a limit change.
#[derive(Clone, Copy, Debug, PartialEq, Eq, Structural)]
pub enum LimitResult {
    Accepted,
    Failed(VerifyError),
}

/// Result of an account query or bill.
#[derive(Debug)]
pub struct AccountQueryResult {
    pub account_id: u64,
    pub total_spent: i64,
    pub per_card_spent: Vec<(u64, i64)>,
}

/// Result of a business operation.
#[derive(Debug)]
pub enum OperationResult {
    Charge(ChargeResult),
    LimitAccount(LimitResult),
    LimitCard(LimitResult),
    AccountQuery(AccountQueryResult),
    DatabaseSnapshot(DatabaseSnapshot),
    ReplaceDatabase,
}

/// Copies a sequence of account snapshots.
pub fn copy_account_snapshots(v: &Vec<AccountSnapshot>) -> (r: Vec<AccountSnapshot>)
    ensures
        r@ == v@,
{
    let mut r: Vec<AccountSnapshot> = Vec::new();
    let mut i: usize = 0;
    while i < v.len()
        invariant
            0 <= i <= v@.len(),
            r@ == v@.subrange(0, i as int),
        decreases v@.len() - i,
    {
        r.push(v[i]);
        i = i + 1;
        assert(r@ =~= v@.subrange(0, i as int));
    }
    assert(v@.subrange(0, v@.len() as int) =~= v@);
    r
}

/// Copies a sequence of card snapshots.
pub fn copy_card_snapshots(v: &Vec<CardSnapshot>) -> (r: Vec<CardSnapshot>)
    ensures
        r@ == v@,
{
    let mut r: Vec<CardSnapshot> = Vec::new();
    let mut i: usize = 0;
    while i < v.len()
        invariant
            0 <= i <= v@.len(),
            r@ == v@.subrange(0, i as int),
        decreases v@.len() - i,
    {
        r.push(v[i]);
        i = i + 1;
        assert(r@ =~= v@.subrange(0, i as int));
    }
    assert(v@.subrange(0, v@.len() as int) =~= v@);
    r
}

impl DatabaseSnapshot {
    /// A copy of the snapshot.
    pub fn duplicate(&self) -> (r: DatabaseSnapshot)
        ensures
            r.addr == self.addr,
            r.accounts@ == self.accounts@,
            r.cards@ == self.cards@,
    {
        DatabaseSnapshot {
            addr: self.addr,
            accounts: copy_account_snapshots(&self.accounts),
            cards: copy_card_snapshots(&self.cards),
        }
    }
}

/// A database snapshot with sequences in place of vectors.
pub struct SnapshotView {
    pub addr: NodeAddr,
    pub accounts: Seq<AccountSnapshot>,
    pub cards: Seq<CardSnapshot>,
}

impl View for DatabaseSnapshot {
    type V = SnapshotView;

    open spec fn view(&self) -> SnapshotView {
        SnapshotView { addr: self.addr, accounts: self.accounts@, cards: self.cards@ }
    }
}

/// An operation with sequences in place of vectors and strings.
pub enum OperationView {
    Charge { account_id: u64, card_id: u64, amount: i64, from_offline_station: bool },
    LimitAccount { account_id: u64, new_limit: Option<i64> },
    LimitCard { account_id: u64, card_id: u64, new_limit: Option<i64> },
    AccountQuery { account_id: u64 },
    Bill { account_id: u64, period: Option<Seq<char>> },
    GetDatabase { addr: NodeAddr },
    ReplaceDatabase { snapshot: SnapshotView },
}

impl View for Operation {
    type V = OperationView;

    open spec fn view(&self) -> OperationView {
        match self {
            Operation::Charge { account_id, card_id, amount, from_offline_station } =>
                OperationView::Charge {
                account_id: *account_id,
                card_id: *card_id,
                amount: *amount,
                from_offline_station: *from_offline_station,
            },
            Operation::LimitAccount { account_id, new_limit } => OperationView::LimitAccount {
                account_id: *account_id,
                new_limit: *new_limit,
            },
            Operation::LimitCard { account_id, card_id, new_limit } => OperationView::LimitCard {
                account_id: *account_id,
                card_id: *card_id,
                new_limit: *new_limit,
            },
            Operation::AccountQuery { account_id } => OperationView::AccountQuery {
                account_id: *account_id,
            },
            Operation::Bill { account_id, period } => OperationView::Bill {
                account_id: *account_id,
                period: match period {
                    Some(p) => Some(p@),
                    None => None,
                },
            },
            Operation::GetDatabase { addr } => OperationView::GetDatabase { addr: *addr },
            Operation::ReplaceDatabase { snapshot } => OperationView::ReplaceDatabase {
                snapshot: snapshot@,
            },
        }
    }
}

impl Operation {
    /// A copy of the operation.
    pub fn duplicate(&self) -> (r: Operation)
        ensures
            r@ == self@,
            !(self is ReplaceDatabase || self is Bill) ==> r == *self,
    {
        match self {
            Operation::Charge { account_id, card_id, amount, from_offline_station } =>
                Operation::Charge {
                account_id: *account_id,
                card_id: *card_id,
                amount: *amount,
                from_offline_station: *from_offline_station,
            },
            Operation::LimitAccount { account_id, new_limit } => Operation::LimitAccount {
                account_id: *account_id,
                new_limit: *new_limit,
            },
            Operation::LimitCard { account_id, card_id, new_limit } => Operation::LimitCard {
                account_id: *account_id,
                card_id: *card_id,
                new_limit: *new_limit,
            },
            Operation::AccountQuery { account_id } => Operation::AccountQuery {
                account_id: *account_id,
            },
            Operation::Bill { account_id, period } => Operation::Bill {
                account_id: *account_id,
                period: match period {
                    Some(p) => Some(p.clone()),
                    None => None,
                },
            },
            Operation::GetDatabase { addr } => Operation::GetDatabase { addr: *addr },
            Operation::ReplaceDatabase { snapshot } => Operation::ReplaceDatabase {
                snapshot: snapshot.duplicate(),
            },
        }
    }
}

} // verus!
