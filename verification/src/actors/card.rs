//! Card actor: per-card limit and per-card consumption.
//!
//! A card runs its tasks one at a time, in arrival order. A charge first
//! passes the card limit (unless it comes from an offline station), then
//! waits for its account to accept it; the card's consumption grows only
//! when the account accepted. A limit change completes at once.

use vstd::prelude::*;

use super::messages::{completed, AccountChargeReply, AccountMsg, CardMsg, RouterInternalMsg};
use crate::errors::{LimitCheckError, LimitUpdateError, VerifyError};
use crate::operation::{
    add_amount, allows_limit, fits_limit, limit_allows, sat, within_limit, CardSnapshot,
};

verus! {

/// A charge as a card task.
#[derive(Clone, Copy, Debug, PartialEq, Eq, Structural)]
pub struct CardChargeOp {
    pub op_id: u32,
    pub account_id: u64,
    pub amount: i64,
    /// Whether the charge was accepted earlier by a station that was offline.
    pub from_offline_station: bool,
}

/// A task a card executes.
#[derive(Clone, Copy, Debug, PartialEq, Eq, Structural)]
pub enum CardTask {
    Charge(CardChargeOp),
    LimitChange { op_id: u32, new_limit: Option<i64> },
}

/// A message a card sends.
#[derive(Debug)]
pub enum CardOutput {
    ToAccount(AccountMsg),
    ToRouter(RouterInternalMsg),
}

/// Actor that owns one card's state.
#[derive(Debug)]
pub struct CardActor {
    pub card_id: u64,
    pub account_id: u64,
    /// Per-card limit; `None` means no limit.
    pub limit: Option<i64>,
    /// Total amount consumed by this card.
    pub consumed: i64,
    /// The task in progress, if any.
    pub current_task: Option<CardTask>,
    /// Tasks waiting for the current one to finish.
    pub queue: Vec<CardTask>,
}

/// The error of a charge refused by the card limit.
pub open spec fn card_limit_error() -> Option<VerifyError> {
    Some(VerifyError::ChargeLimit(LimitCheckError::CardLimitExceeded))
}

/// The error of a limit change below the current consumption.
pub open spec fn below_usage_error() -> Option<VerifyError> {
    Some(VerifyError::LimitUpdate(LimitUpdateError::BelowCurrentUsage))
}

/// The request a card sends to its account for a charge.
pub open spec fn charge_request(card_id: u64, op: CardChargeOp) -> AccountMsg {
    AccountMsg::ApplyChargeFromCard {
        op_id: op.op_id,
        amount: op.amount,
        card_id,
        from_offline_station: op.from_offline_station,
    }
}

/// Runs queued tasks, in order, until one has to wait for the account or
/// none is left. Returns the new limit, the task left in progress, the tasks
/// still queued, and the messages sent.
pub open spec fn spec_drain(
    card_id: u64,
    limit: Option<i64>,
    consumed: i64,
    queue: Seq<CardTask>,
) -> (Option<i64>, Option<CardTask>, Seq<CardTask>, Seq<CardOutput>)
    decreases queue.len(),
{
    if queue.len() == 0 {
        (limit, None, queue, Seq::empty())
    } else {
        let t = queue[0];
        let rest = queue.subrange(1, queue.len() as int);
        match t {
            CardTask::Charge(op) => {
                if !op.from_offline_station && !within_limit(limit, consumed, op.amount) {
                    let (l2, cur, q2, outs) = spec_drain(card_id, limit, consumed, rest);
                    (
                        l2,
                        cur,
                        q2,
                        seq![CardOutput::ToRouter(completed(op.op_id, false, card_limit_error()))]
                            + outs,
                    )
                } else {
                    (limit, Some(t), rest, seq![CardOutput::ToAccount(charge_request(card_id, op))])
                }
            },
            CardTask::LimitChange { op_id, new_limit } => {
                if limit_allows(new_limit, consumed) {
                    let (l2, cur, q2, outs) = spec_drain(card_id, new_limit, consumed, rest);
                    (l2, cur, q2, seq![CardOutput::ToRouter(completed(op_id, true, None))] + outs)
                } else {
                    let (l2, cur, q2, outs) = spec_drain(card_id, limit, consumed, rest);
                    (
                        l2,
                        cur,
                        q2,
                        seq![CardOutput::ToRouter(completed(op_id, false, below_usage_error()))]
                            + outs,
                    )
                }
            },
        }
    }
}

impl CardActor {
    /// A card is idle exactly when nothing waits behind an absent current task.
    pub open spec fn wf(&self) -> bool {
        self.current_task is None ==> self.queue@.len() == 0
    }

    /// Whether the card has no task in progress or queued.
    pub open spec fn is_idle(&self) -> bool {
        &&& self.current_task is None
        &&& self.queue@.len() == 0
    }

    /// The card's state as a snapshot.
    pub open spec fn spec_snapshot(&self) -> CardSnapshot {
        CardSnapshot {
            account_id: self.account_id,
            card_id: self.card_id,
            limit: self.limit,
            consumed: self.consumed,
        }
    }

    /// A new idle card with no limit and nothing consumed.
    pub fn new(card_id: u64, account_id: u64) -> (card: CardActor)
        ensures
            card.card_id == card_id,
            card.account_id == account_id,
            card.limit is None,
            card.consumed == 0,
            card.is_idle(),
    {
        CardActor {
            card_id,
            account_id,
            limit: None,
            consumed: 0,
            current_task: None,
            queue: Vec::new(),
        }
    }

    /// The card's state as a snapshot.
    pub fn snapshot(&self) -> (s: CardSnapshot)
        ensures
            s == self.spec_snapshot(),
    {
        CardSnapshot {
            account_id: self.account_id,
            card_id: self.card_id,
            limit: self.limit,
            consumed: self.consumed,
        }
    }

    /// Checks the card limit for a single charge.
    pub fn check_charge_limit(&self, amount: i64) -> (res: Result<(), LimitCheckError>)
        ensures
            res is Ok <==> within_limit(self.limit, self.consumed, amount),
            res is Err ==> res == Err::<(), LimitCheckError>(LimitCheckError::CardLimitExceeded),
    {
        if fits_limit(self.limit, self.consumed, amount) {
            Ok(())
        } else {
            Err(LimitCheckError::CardLimitExceeded)
        }
    }

    /// Checks whether the card limit may become `new_limit`.
    pub fn can_set_new_limit(&self, new_limit: Option<i64>) -> (res: Result<(), LimitUpdateError>)
        ensures
            res is Ok <==> limit_allows(new_limit, self.consumed),
            res is Err ==> res == Err::<(), LimitUpdateError>(LimitUpdateError::BelowCurrentUsage),
    {
        if allows_limit(new_limit, self.consumed) {
            Ok(())
        } else {
            Err(LimitUpdateError::BelowCurrentUsage)
        }
    }

    /// Starts queued tasks, in order, until one waits for the account or
    /// the queue is empty; appends the messages sent to `outs`.
    fn run_queue(&mut self, outs: &mut Vec<CardOutput>)
        requires
            old(self).current_task is None,
        ensures
            ({
                let (l, cur, q, o) = spec_drain(
                    old(self).card_id,
                    old(self).limit,
                    old(self).consumed,
                    old(self).queue@,
                );
                &&& final(self).limit == l
                &&& final(self).current_task == cur
                &&& final(self).queue@ == q
                &&& final(outs)@ == old(outs)@ + o
            }),
            final(self).card_id == old(self).card_id,
            final(self).account_id == old(self).account_id,
            final(self).consumed == old(self).consumed,
            final(self).wf(),
    {
        let ghost d = spec_drain(self.card_id, self.limit, self.consumed, self.queue@);
        let ghost outs0 = outs@;
        let mut waiting = false;
        while !waiting && self.queue.len() > 0
            invariant
                self.card_id == old(self).card_id,
                self.account_id == old(self).account_id,
                self.consumed == old(self).consumed,
                !waiting ==> self.current_task is None,
                !waiting ==> ({
                    let (l, cur, q, o) = spec_drain(
                        self.card_id,
                        self.limit,
                        self.consumed,
                        self.queue@,
                    );
                    &&& l == d.0
                    &&& cur == d.1
                    &&& q == d.2
                    &&& outs0 + d.3 == outs@ + o
                }),
                waiting ==> {
                    &&& self.limit == d.0
                    &&& self.current_task == d.1
                    &&& self.current_task is Some
                    &&& self.queue@ == d.2
                    &&& outs0 + d.3 == outs@
                },
            decreases self.queue@.len(),
        {
            let ghost q0 = self.queue@;
            let ghost outs_before = outs@;
            let ghost dd = spec_drain(self.card_id, self.limit, self.consumed, q0);
            let t = self.queue.remove(0);
            assert(q0[0] == t);
            assert(self.queue@ =~= q0.subrange(1, q0.len() as int));
            match t {
                CardTask::Charge(op) => {
                    if !op.from_offline_station && self.check_charge_limit(op.amount).is_err() {
                        outs.push(
                            CardOutput::ToRouter(
                                RouterInternalMsg::OperationCompleted {
                                    op_id: op.op_id,
                                    success: false,
                                    error: Some(
                                        VerifyError::ChargeLimit(
                                            LimitCheckError::CardLimitExceeded,
                                        ),
                                    ),
                                },
                            ),
                        );
                        proof {
                            let o = spec_drain(self.card_id, self.limit, self.consumed, self.queue@).3;
                            assert(outs0 + d.3 =~= outs@ + o);
                        }
                    } else {
                        self.current_task = Some(t);
                        outs.push(
                            CardOutput::ToAccount(
                                AccountMsg::ApplyChargeFromCard {
                                    op_id: op.op_id,
                                    amount: op.amount,
                                    card_id: self.card_id,
                                    from_offline_station: op.from_offline_station,
                                },
                            ),
                        );
                        assert(dd.3 == seq![
                            CardOutput::ToAccount(charge_request(self.card_id, op)),
                        ]);
                        assert(outs@ =~= outs_before + dd.3);
                        assert(outs0 + d.3 =~= outs@);
                        waiting = true;
                    }
                },
                CardTask::LimitChange { op_id, new_limit } => {
                    if self.can_set_new_limit(new_limit).is_ok() {
                        self.limit = new_limit;
                        outs.push(
                            CardOutput::ToRouter(
                                RouterInternalMsg::OperationCompleted {
                                    op_id,
                                    success: true,
                                    error: None,
                                },
                            ),
                        );
                    } else {
                        outs.push(
                            CardOutput::ToRouter(
                                RouterInternalMsg::OperationCompleted {
                                    op_id,
                                    success: false,
                                    error: Some(
                                        VerifyError::LimitUpdate(LimitUpdateError::BelowCurrentUsage),
                                    ),
                                },
                            ),
                        );
                    }
                    proof {
                        let o = spec_drain(self.card_id, self.limit, self.consumed, self.queue@).3;
                        assert(outs0 + d.3 =~= outs@ + o);
                    }
                },
            }
        }
        if !waiting {
            assert(outs0 + d.3 =~= outs@);
        }
    }

    /// Queues a task, starting it at once when the card is idle.
    fn submit(&mut self, task: CardTask) -> (outs: Vec<CardOutput>)
        requires
            old(self).wf(),
        ensures
            final(self).card_id == old(self).card_id,
            final(self).account_id == old(self).account_id,
            final(self).consumed == old(self).consumed,
            final(self).wf(),
            old(self).current_task is None ==> ({
                let (l, cur, q, o) = spec_drain(
                    old(self).card_id,
                    old(self).limit,
                    old(self).consumed,
                    seq![task],
                );
                &&& final(self).limit == l
                &&& final(self).current_task == cur
                &&& final(self).queue@ == q
                &&& outs@ == o
            }),
            old(self).current_task is Some ==> {
                &&& final(self).limit == old(self).limit
                &&& final(self).current_task == old(self).current_task
                &&& final(self).queue@ == old(self).queue@.push(task)
                &&& outs@.len() == 0
            },
    {
        let mut outs: Vec<CardOutput> = Vec::new();
        if self.current_task.is_none() {
            self.queue.push(task);
            assert(self.queue@ =~= seq![task]);
            self.run_queue(&mut outs);
            assert(outs@ =~= spec_drain(old(self).card_id, old(self).limit, old(self).consumed, seq![task]).3);
        } else {
            self.queue.push(task);
        }
        outs
    }

    /// One step of the card on a message from the router: `post` and `outs`
    /// are the state and the messages after handling `msg` in this state.
    pub open spec fn handle_step(self, msg: CardMsg, post: CardActor, outs: Seq<CardOutput>) -> bool {
        &&& post.card_id == self.card_id
        &&& post.account_id == self.account_id
        &&& post.wf()
        &&& match msg {
            CardMsg::ExecuteCharge { op_id, account_id, card_id, amount, from_offline_station } => {
                let task = CardTask::Charge(
                    CardChargeOp { op_id, account_id, amount, from_offline_station },
                );
                if account_id != self.account_id || card_id != self.card_id {
                    &&& post == self
                    &&& outs == seq![CardOutput::ToRouter(completed(op_id, false, card_limit_error()))]
                } else {
                    post.consumed == self.consumed && submitted(
                        self,
                        post,
                        task,
                        outs,
                    )
                }
            },
            CardMsg::ExecuteLimitChange { op_id, new_limit } => post.consumed == self.consumed && submitted(
                self,
                post,
                CardTask::LimitChange { op_id, new_limit },
                outs,
            ),
            CardMsg::QueryCardState { op_id, account_id, reset_after_report } => {
                if account_id != self.account_id {
                    &&& post == self
                    &&& outs.len() == 0
                } else {
                    &&& outs == seq![
                        CardOutput::ToAccount(
                            AccountMsg::CardQueryReply {
                                op_id,
                                card_id: self.card_id,
                                consumed: self.consumed,
                            },
                        ),
                    ]
                    &&& post.consumed == if reset_after_report {
                        0
                    } else {
                        self.consumed
                    }
                    &&& post.limit == self.limit
                    &&& post.current_task == self.current_task
                    &&& post.queue@ == self.queue@
                }
            },
            CardMsg::GetSnapshot { op_id } => {
                &&& post == self
                &&& outs == seq![
                    CardOutput::ToRouter(
                        RouterInternalMsg::CardSnapshotCollected {
                            op_id,
                            snapshot: self.spec_snapshot(),
                        },
                    ),
                ]
            },
            CardMsg::ReplaceState { new_limit, new_consumed } => {
                &&& post.limit == new_limit
                &&& post.consumed == new_consumed
                &&& post.is_idle()
                &&& outs.len() == 0
            },
        }
    }

    /// Handles a message from the router.
    pub fn handle(&mut self, msg: CardMsg) -> (outs: Vec<CardOutput>)
        requires
            old(self).wf(),
        ensures
            old(self).handle_step(msg, *final(self), outs@),
    {
        match msg {
            CardMsg::ExecuteCharge { op_id, account_id, card_id, amount, from_offline_station } => {
                if account_id != self.account_id || card_id != self.card_id {
                    let mut outs: Vec<CardOutput> = Vec::new();
                    outs.push(
                        CardOutput::ToRouter(
                            RouterInternalMsg::OperationCompleted {
                                op_id,
                                success: false,
                                error: Some(
                                    VerifyError::ChargeLimit(LimitCheckError::CardLimitExceeded),
                                ),
                            },
                        ),
                    );
                    return outs;
                }
                let task = CardTask::Charge(
                    CardChargeOp { op_id, account_id, amount, from_offline_station },
                );
                self.submit(task)
            },
            CardMsg::ExecuteLimitChange { op_id, new_limit } => {
                self.submit(CardTask::LimitChange { op_id, new_limit })
            },
            CardMsg::QueryCardState { op_id, account_id, reset_after_report } => {
                let mut outs: Vec<CardOutput> = Vec::new();
                if account_id != self.account_id {
                    return outs;
                }
                outs.push(
                    CardOutput::ToAccount(
                        AccountMsg::CardQueryReply {
                            op_id,
                            card_id: self.card_id,
                            consumed: self.consumed,
                        },
                    ),
                );
                if reset_after_report {
                    self.consumed = 0;
                }
                outs
            },
            CardMsg::GetSnapshot { op_id } => {
                let mut outs: Vec<CardOutput> = Vec::new();
                outs.push(
                    CardOutput::ToRouter(
                        RouterInternalMsg::CardSnapshotCollected { op_id, snapshot: self.snapshot() },
                    ),
                );
                outs
            },
            CardMsg::ReplaceState { new_limit, new_consumed } => {
                self.limit = new_limit;
                self.consumed = new_consumed;
                self.current_task = None;
                self.queue = Vec::new();
                Vec::new()
            },
        }
    }

    /// One step of the card on its account's answer: `post` and `outs` are the
    /// state and the messages after handling `reply` in this state.
    pub open spec fn reply_step(self, reply: AccountChargeReply, post: CardActor, outs: Seq<CardOutput>) -> bool {
        &&& post.card_id == self.card_id
        &&& post.account_id == self.account_id
        &&& post.wf()
        &&& match self.current_task {
            Some(CardTask::Charge(op)) if op.op_id == reply.op_id => {
                let consumed = if reply.success {
                    sat(self.consumed + op.amount)
                } else {
                    self.consumed
                };
                let (l, cur, q, o) = spec_drain(
                    self.card_id,
                    self.limit,
                    consumed,
                    self.queue@,
                );
                &&& post.consumed == consumed
                &&& post.limit == l
                &&& post.current_task == cur
                &&& post.queue@ == q
                &&& outs == seq![
                    CardOutput::ToRouter(completed(reply.op_id, reply.success, reply.error)),
                ] + o
            },
            _ => post == self && outs.len() == 0,
        }
    }

    /// Handles the account's answer to the charge in progress: the card's
    /// consumption grows when the account accepted, the charge completes,
    /// and the queued tasks run.
    pub fn handle_account_reply(&mut self, reply: AccountChargeReply) -> (outs: Vec<CardOutput>)
        requires
            old(self).wf(),
        ensures
            old(self).reply_step(reply, *final(self), outs@),
    {
        let mut outs: Vec<CardOutput> = Vec::new();
        match self.current_task {
            Some(CardTask::Charge(op)) => {
                if op.op_id == reply.op_id {
                    if reply.success {
                        self.consumed = add_amount(self.consumed, op.amount);
                    }
                    outs.push(
                        CardOutput::ToRouter(
                            RouterInternalMsg::OperationCompleted {
                                op_id: reply.op_id,
                                success: reply.success,
                                error: reply.error,
                            },
                        ),
                    );
                    self.current_task = None;
                    self.run_queue(&mut outs);
                }
            },
            _ => {},
        }
        outs
    }
}

/// `after` is `before` with `task` submitted, and `outs` what it sent.
pub open spec fn submitted(
    before: CardActor,
    after: CardActor,
    task: CardTask,
    outs: Seq<CardOutput>,
) -> bool {
    if before.current_task is None {
        let (l, cur, q, o) = spec_drain(before.card_id, before.limit, before.consumed, seq![task]);
        &&& after.limit == l
        &&& after.current_task == cur
        &&& after.queue@ == q
        &&& outs == o
    } else {
        &&& after.limit == before.limit
        &&& after.current_task == before.current_task
        &&& after.queue@ == before.queue@.push(task)
        &&& outs.len() == 0
    }
}

} // verus!

verus! {

/// Running a single task on an idle card.
pub proof fn lemma_drain_single(card_id: u64, limit: Option<i64>, consumed: i64, t: CardTask)
    ensures
        spec_drain(card_id, limit, consumed, seq![t]) == match t {
            CardTask::Charge(op) => if !op.from_offline_station && !within_limit(
                limit,
                consumed,
                op.amount,
            ) {
                (
                    limit,
                    None::<CardTask>,
                    Seq::<CardTask>::empty(),
                    seq![CardOutput::ToRouter(completed(op.op_id, false, card_limit_error()))],
                )
            } else {
                (
                    limit,
                    Some(t),
                    Seq::<CardTask>::empty(),
                    seq![CardOutput::ToAccount(charge_request(card_id, op))],
                )
            },
            CardTask::LimitChange { op_id, new_limit } => if limit_allows(new_limit, consumed) {
                (
                    new_limit,
                    None::<CardTask>,
                    Seq::<CardTask>::empty(),
                    seq![CardOutput::ToRouter(completed(op_id, true, None))],
                )
            } else {
                (
                    limit,
                    None::<CardTask>,
                    Seq::<CardTask>::empty(),
                    seq![CardOutput::ToRouter(completed(op_id, false, below_usage_error()))],
                )
            },
        },
{
    let q = seq![t];
    let rest = q.subrange(1, 1);
    assert(rest =~= Seq::<CardTask>::empty());
    assert(q[0] == t);
    let e = spec_drain(card_id, limit, consumed, rest);
    assert(e.3 =~= Seq::<CardOutput>::empty());
    match t {
        CardTask::LimitChange { op_id, new_limit } => {
            let e2 = spec_drain(card_id, new_limit, consumed, rest);
            assert(e2.3 =~= Seq::<CardOutput>::empty());
            assert(seq![CardOutput::ToRouter(completed(op_id, true, None))] + e2.3 =~= seq![
                CardOutput::ToRouter(completed(op_id, true, None)),
            ]);
            assert(seq![CardOutput::ToRouter(completed(op_id, false, below_usage_error()))] + e.3
                =~= seq![CardOutput::ToRouter(completed(op_id, false, below_usage_error()))]);
        },
        CardTask::Charge(op) => {
            assert(seq![CardOutput::ToRouter(completed(op.op_id, false, card_limit_error()))] + e.3
                =~= seq![CardOutput::ToRouter(completed(op.op_id, false, card_limit_error()))]);
        },
    }
}

} // verus!
