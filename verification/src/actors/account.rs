//! Account actor: account-wide limit and account-wide consumption.
//!
//! An account accepts a charge from one of its cards when the charge fits the
//! account limit or comes from an offline station; it then adds the amount to
//! its consumption. Queries and bills collect one report per card; a bill
//! resets the account's consumption once all reports are in.

use vstd::prelude::*;

use super::messages::{completed, AccountChargeReply, AccountMsg, RouterInternalMsg};
use crate::errors::{LimitCheckError, LimitUpdateError, VerifyError};
use crate::operation::{
    add_amount, allows_limit, fits_limit, limit_allows, sat, sat_sum, sum_spent, within_limit,
    AccountSnapshot,
};

verus! {

/// A query or bill waiting for card reports.
#[derive(Debug)]
pub struct AccountPendingQuery {
    pub op_id: u32,
    /// Card reports still expected.
    pub remaining: usize,
    /// Reports received so far, as `(card_id, consumed)`.
    pub per_card_spent: Vec<(u64, i64)>,
    /// Whether the consumption is reset once all reports are in (a bill).
    pub reset_after: bool,
}

/// A message an account sends.
#[derive(Debug)]
pub enum AccountOutput {
    /// The answer to the card that asked for a charge.
    ReplyToCard { card_id: u64, reply: AccountChargeReply },
    ToRouter(RouterInternalMsg),
}

/// Actor that owns one account's state.
#[derive(Debug)]
pub struct AccountActor {
    pub account_id: u64,
    /// Account-wide limit; `None` means no limit.
    pub account_limit: Option<i64>,
    /// Total consumption across all the account's cards.
    pub account_consumed: i64,
    /// The query or bill in progress, if any.
    pub pending_query: Option<AccountPendingQuery>,
}

/// The error of a charge refused by the account limit.
pub open spec fn account_limit_error() -> Option<VerifyError> {
    Some(VerifyError::ChargeLimit(LimitCheckError::AccountLimitExceeded))
}

/// Whether `out` reports a finished query of `account_id` with the given figures.
pub open spec fn is_query_report(
    out: AccountOutput,
    op_id: u32,
    account_id: u64,
    total_spent: i64,
    per_card_spent: Seq<(u64, i64)>,
) -> bool {
    out matches AccountOutput::ToRouter(
        RouterInternalMsg::AccountQueryCompleted { op_id: o, account_id: a, total_spent: t, per_card_spent: p },
    ) && o == op_id && a == account_id && t == total_spent && p@ == per_card_spent
}

/// Whether `q` is a pending query with the given figures.
pub open spec fn is_pending(
    q: Option<AccountPendingQuery>,
    op_id: u32,
    remaining: usize,
    per_card_spent: Seq<(u64, i64)>,
    reset_after: bool,
) -> bool {
    q matches Some(p) && p.op_id == op_id && p.remaining == remaining && p.per_card_spent@
        == per_card_spent && p.reset_after == reset_after
}

impl AccountActor {
    /// The account's state as a snapshot.
    pub open spec fn spec_snapshot(&self) -> AccountSnapshot {
        AccountSnapshot {
            account_id: self.account_id,
            limit: self.account_limit,
            consumed: self.account_consumed,
        }
    }

    /// A new account with no limit, nothing consumed and no query in progress.
    pub fn new(account_id: u64) -> (acc: AccountActor)
        ensures
            acc.account_id == account_id,
            acc.account_limit is None,
            acc.account_consumed == 0,
            acc.pending_query is None,
    {
        AccountActor {
            account_id,
            account_limit: None,
            account_consumed: 0,
            pending_query: None,
        }
    }

    /// The account's state as a snapshot.
    pub fn snapshot(&self) -> (s: AccountSnapshot)
        ensures
            s == self.spec_snapshot(),
    {
        AccountSnapshot {
            account_id: self.account_id,
            limit: self.account_limit,
            consumed: self.account_consumed,
        }
    }

    /// Checks the account-wide limit for a charge of `amount`.
    pub fn check_account_limit(&self, amount: i64) -> (res: Result<(), LimitCheckError>)
        ensures
            res is Ok <==> within_limit(self.account_limit, self.account_consumed, amount),
            res is Err ==> res == Err::<(), LimitCheckError>(
                LimitCheckError::AccountLimitExceeded,
            ),
    {
        if fits_limit(self.account_limit, self.account_consumed, amount) {
            Ok(())
        } else {
            Err(LimitCheckError::AccountLimitExceeded)
        }
    }

    /// Checks whether a limit may become `new_limit` once `already_consumed`
    /// was consumed: removing the limit is always allowed.
    pub fn can_raise_limit(new_limit: Option<i64>, already_consumed: i64) -> (res: Result<
        (),
        LimitUpdateError,
    >)
        ensures
            res is Ok <==> limit_allows(new_limit, already_consumed),
            res is Err ==> res == Err::<(), LimitUpdateError>(LimitUpdateError::BelowCurrentUsage),
    {
        if allows_limit(new_limit, already_consumed) {
            Ok(())
        } else {
            Err(LimitUpdateError::BelowCurrentUsage)
        }
    }

    /// Reports a finished query; for a bill, resets the consumption afterwards.
    fn finish_query(
        &mut self,
        op_id: u32,
        per_card_spent: Vec<(u64, i64)>,
        total_spent: i64,
        reset_after: bool,
    ) -> (outs: Vec<AccountOutput>)
        ensures
            outs@.len() == 1,
            is_query_report(outs@[0], op_id, old(self).account_id, total_spent, per_card_spent@),
            final(self).account_id == old(self).account_id,
            final(self).account_limit == old(self).account_limit,
            final(self).account_consumed == if reset_after {
                0
            } else {
                old(self).account_consumed
            },
            final(self).pending_query is None,
    {
        self.pending_query = None;
        if reset_after {
            self.account_consumed = 0;
        }
        let mut outs: Vec<AccountOutput> = Vec::new();
        outs.push(
            AccountOutput::ToRouter(
                RouterInternalMsg::AccountQueryCompleted {
                    op_id,
                    account_id: self.account_id,
                    total_spent,
                    per_card_spent,
                },
            ),
        );
        outs
    }

    /// Starts a query (or a bill) that expects `num_cards` card reports.
    fn start_query(&mut self, op_id: u32, num_cards: usize, reset_after: bool) -> (outs: Vec<
        AccountOutput,
    >)
        ensures
            final(self).account_id == old(self).account_id,
            final(self).account_limit == old(self).account_limit,
            num_cards == 0 ==> {
                &&& outs@.len() == 1
                &&& is_query_report(
                    outs@[0],
                    op_id,
                    old(self).account_id,
                    old(self).account_consumed,
                    Seq::empty(),
                )
                &&& final(self).account_consumed == if reset_after {
                    0
                } else {
                    old(self).account_consumed
                }
                &&& final(self).pending_query is None
            },
            num_cards > 0 ==> {
                &&& outs@.len() == 0
                &&& final(self).account_consumed == old(self).account_consumed
                &&& is_pending(final(self).pending_query, op_id, num_cards, Seq::empty(), reset_after)
            },
    {
        if num_cards == 0 {
            let total = self.account_consumed;
            return self.finish_query(op_id, Vec::new(), total, reset_after);
        }
        self.pending_query = Some(
            AccountPendingQuery { op_id, remaining: num_cards, per_card_spent: Vec::new(), reset_after },
        );
        Vec::new()
    }

    /// One step of the account: `post` and `outs` are the state and the
    /// messages after handling `msg` in this state.
    pub open spec fn handle_step(self, msg: AccountMsg, post: AccountActor, outs: Seq<AccountOutput>) -> bool {
        &&& post.account_id == self.account_id
        &&& match msg {
            AccountMsg::ApplyChargeFromCard { op_id, amount, card_id, from_offline_station } => {
                let accepted = from_offline_station || within_limit(
                    self.account_limit,
                    self.account_consumed,
                    amount,
                );
                &&& post.account_limit == self.account_limit
                &&& post.account_consumed == if accepted {
                    sat(self.account_consumed + amount)
                } else {
                    self.account_consumed
                }
                &&& post.pending_query == self.pending_query
                &&& outs == seq![
                    AccountOutput::ReplyToCard {
                        card_id,
                        reply: AccountChargeReply {
                            op_id,
                            success: accepted,
                            error: if accepted {
                                None
                            } else {
                                account_limit_error()
                            },
                        },
                    },
                ]
            },
            AccountMsg::ApplyAccountLimit { op_id, new_limit } => {
                let ok = limit_allows(new_limit, self.account_consumed);
                &&& post.account_limit == if ok {
                    new_limit
                } else {
                    self.account_limit
                }
                &&& post.account_consumed == self.account_consumed
                &&& post.pending_query == self.pending_query
                &&& outs == seq![
                    AccountOutput::ToRouter(
                        completed(
                            op_id,
                            ok,
                            if ok {
                                None
                            } else {
                                Some(VerifyError::LimitUpdate(LimitUpdateError::BelowCurrentUsage))
                            },
                        ),
                    ),
                ]
            },
            AccountMsg::StartAccountQuery { op_id, num_cards } => query_started(
                self,
                post,
                op_id,
                num_cards,
                false,
                outs,
            ),
            AccountMsg::StartAccountBill { op_id, num_cards } => query_started(
                self,
                post,
                op_id,
                num_cards,
                true,
                outs,
            ),
            AccountMsg::CardQueryReply { op_id, card_id, consumed } => {
                match self.pending_query {
                    Some(p) if p.op_id == op_id => {
                        let per = p.per_card_spent@.push((card_id, consumed));
                        let remaining = if p.remaining > 0 {
                            (p.remaining - 1) as usize
                        } else {
                            0usize
                        };
                        &&& post.account_limit == self.account_limit
                        &&& remaining == 0 ==> {
                            &&& outs.len() == 1
                            &&& is_query_report(
                                outs[0],
                                op_id,
                                self.account_id,
                                sat_sum(per),
                                per,
                            )
                            &&& post.pending_query is None
                            &&& post.account_consumed == if p.reset_after {
                                0
                            } else {
                                self.account_consumed
                            }
                        }
                        &&& remaining > 0 ==> {
                            &&& outs.len() == 0
                            &&& is_pending(
                                post.pending_query,
                                op_id,
                                remaining,
                                per,
                                p.reset_after,
                            )
                            &&& post.account_consumed == self.account_consumed
                        }
                    },
                    _ => post == self && outs.len() == 0,
                }
            },
            AccountMsg::GetSnapshot { op_id } => {
                &&& post == self
                &&& outs == seq![
                    AccountOutput::ToRouter(
                        RouterInternalMsg::AccountSnapshotCollected {
                            op_id,
                            snapshot: self.spec_snapshot(),
                        },
                    ),
                ]
            },
            AccountMsg::ReplaceState { new_limit, new_consumed } => {
                &&& post.account_limit == new_limit
                &&& post.account_consumed == new_consumed
                &&& post.pending_query == self.pending_query
                &&& outs.len() == 0
            },
        }
    }

    /// Handles a message from a card or from the router.
    pub fn handle(&mut self, msg: AccountMsg) -> (outs: Vec<AccountOutput>)
        ensures
            old(self).handle_step(msg, *final(self), outs@),
    {
        match msg {
            AccountMsg::ApplyChargeFromCard { op_id, amount, card_id, from_offline_station } => {
                let mut outs: Vec<AccountOutput> = Vec::new();
                if from_offline_station || self.check_account_limit(amount).is_ok() {
                    self.account_consumed = add_amount(self.account_consumed, amount);
                    outs.push(
                        AccountOutput::ReplyToCard {
                            card_id,
                            reply: AccountChargeReply { op_id, success: true, error: None },
                        },
                    );
                } else {
                    outs.push(
                        AccountOutput::ReplyToCard {
                            card_id,
                            reply: AccountChargeReply {
                                op_id,
                                success: false,
                                error: Some(
                                    VerifyError::ChargeLimit(LimitCheckError::AccountLimitExceeded),
                                ),
                            },
                        },
                    );
                }
                outs
            },
            AccountMsg::ApplyAccountLimit { op_id, new_limit } => {
                let mut outs: Vec<AccountOutput> = Vec::new();
                match Self::can_raise_limit(new_limit, self.account_consumed) {
                    Ok(()) => {
                        self.account_limit = new_limit;
                        outs.push(
                            AccountOutput::ToRouter(
                                RouterInternalMsg::OperationCompleted {
                                    op_id,
                                    success: true,
                                    error: None,
                                },
                            ),
                        );
                    },
                    Err(err) => {
                        outs.push(
                            AccountOutput::ToRouter(
                                RouterInternalMsg::OperationCompleted {
                                    op_id,
                                    success: false,
                                    error: Some(VerifyError::LimitUpdate(err)),
                                },
                            ),
                        );
                    },
                }
                outs
            },
            AccountMsg::StartAccountQuery { op_id, num_cards } => {
                self.start_query(op_id, num_cards, false)
            },
            AccountMsg::StartAccountBill { op_id, num_cards } => {
                self.start_query(op_id, num_cards, true)
            },
            AccountMsg::CardQueryReply { op_id, card_id, consumed } => {
                let pending = self.pending_query.take();
                match pending {
                    Some(mut p) => {
                        if p.op_id != op_id {
                            self.pending_query = Some(p);
                            return Vec::new();
                        }
                        p.per_card_spent.push((card_id, consumed));
                        if p.remaining > 0 {
                            p.remaining = p.remaining - 1;
                        }
                        if p.remaining == 0 {
                            let total = sum_spent(&p.per_card_spent);
                            self.finish_query(p.op_id, p.per_card_spent, total, p.reset_after)
                        } else {
                            self.pending_query = Some(p);
                            Vec::new()
                        }
                    },
                    None => Vec::new(),
                }
            },
            AccountMsg::GetSnapshot { op_id } => {
                let mut outs: Vec<AccountOutput> = Vec::new();
                outs.push(
                    AccountOutput::ToRouter(
                        RouterInternalMsg::AccountSnapshotCollected {
                            op_id,
                            snapshot: self.snapshot(),
                        },
                    ),
                );
                outs
            },
            AccountMsg::ReplaceState { new_limit, new_consumed } => {
                self.account_limit = new_limit;
                self.account_consumed = new_consumed;
                Vec::new()
            },
        }
    }
}

/// `after` is `before` with a query or bill started, and `outs` what it sent.
pub open spec fn query_started(
    before: AccountActor,
    after: AccountActor,
    op_id: u32,
    num_cards: usize,
    reset_after: bool,
    outs: Seq<AccountOutput>,
) -> bool {
    &&& after.account_limit == before.account_limit
    &&& num_cards == 0 ==> {
        &&& outs.len() == 1
        &&& is_query_report(outs[0], op_id, before.account_id, before.account_consumed, Seq::empty())
        &&& after.account_consumed == if reset_after {
            0
        } else {
            before.account_consumed
        }
        &&& after.pending_query is None
    }
    &&& num_cards > 0 ==> {
        &&& outs.len() == 0
        &&& after.account_consumed == before.account_consumed
        &&& is_pending(after.pending_query, op_id, num_cards, Seq::empty(), reset_after)
    }
}

} // verus!
