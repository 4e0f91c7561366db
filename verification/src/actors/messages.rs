//! Messages exchanged between the router, the account actors and the card actors.

use vstd::prelude::*;

use crate::errors::VerifyError;
use crate::operation::{AccountSnapshot, CardSnapshot, Operation, OperationResult};

verus! {

/// Events the router reports to the node.
#[derive(Debug)]
pub enum ActorEvent {
    /// Final outcome of an operation.
    OperationResult {
        op_id: u32,
        operation: Operation,
        result: OperationResult,
        success: bool,
        error: Option<VerifyError>,
    },
    /// How many account and card actors the router holds.
    Log { accounts: usize, cards: usize },
}

/// Requests from the node to the router.
#[derive(Debug)]
pub enum RouterCmd {
    /// Execute a complete business operation.
    Execute { op_id: u32, operation: Operation },
    /// Report how many actors the router holds.
    GetLog,
}

/// Messages handled by an account actor.
#[derive(Clone, Copy, Debug, PartialEq, Eq, Structural)]
pub enum AccountMsg {
    /// Charge requested by one of the account's cards.
    ApplyChargeFromCard { op_id: u32, amount: i64, card_id: u64, from_offline_station: bool },
    /// Change the account-wide limit.
    ApplyAccountLimit { op_id: u32, new_limit: Option<i64> },
    /// Start an account query that waits for `num_cards` card reports.
    StartAccountQuery { op_id: u32, num_cards: usize },
    /// Start a bill: a query after which the consumption is reset.
    StartAccountBill { op_id: u32, num_cards: usize },
    /// A card's report for a query or bill.
    CardQueryReply { op_id: u32, card_id: u64, consumed: i64 },
    /// Ask for the account's snapshot.
    GetSnapshot { op_id: u32 },
    /// Replace the account's limit and consumption.
    ReplaceState { new_limit: Option<i64>, new_consumed: i64 },
}

/// Reply of an account actor to the card that asked for a charge.
#[derive(Clone, Copy, Debug, PartialEq, Eq, Structural)]
pub struct AccountChargeReply {
    pub op_id: u32,
    pub success: bool,
    pub error: Option<VerifyError>,
}

/// Messages handled by a card actor.
#[derive(Clone, Copy, Debug, PartialEq, Eq, Structural)]
pub enum CardMsg {
    /// Execute a charge on this card.
    ExecuteCharge {
        op_id: u32,
        account_id: u64,
        card_id: u64,
        amount: i64,
        from_offline_station: bool,
    },
    /// Change this card's limit.
    ExecuteLimitChange { op_id: u32, new_limit: Option<i64> },
    /// Report this card's consumption to its account, resetting it after the
    /// report when `reset_after_report` (a bill).
    QueryCardState { op_id: u32, account_id: u64, reset_after_report: bool },
    /// Ask for the card's snapshot.
    GetSnapshot { op_id: u32 },
    /// Replace the card's limit and consumption, dropping pending tasks.
    ReplaceState { new_limit: Option<i64>, new_consumed: i64 },
}

/// Messages from account and card actors to the router.
#[derive(Debug)]
pub enum RouterInternalMsg {
    /// A charge or a limit change finished.
    OperationCompleted { op_id: u32, success: bool, error: Option<VerifyError> },
    /// An account query or bill finished.
    AccountQueryCompleted {
        op_id: u32,
        account_id: u64,
        total_spent: i64,
        per_card_spent: Vec<(u64, i64)>,
    },
    /// One account's part of a database snapshot.
    AccountSnapshotCollected { op_id: u32, snapshot: AccountSnapshot },
    /// One card's part of a database snapshot.
    CardSnapshotCollected { op_id: u32, snapshot: CardSnapshot },
}

/// The completion message of a charge or limit change.
pub open spec fn completed(op_id: u32, success: bool, error: Option<VerifyError>) -> RouterInternalMsg {
    RouterInternalMsg::OperationCompleted { op_id, success, error }
}

} // verus!
