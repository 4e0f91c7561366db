//! The router: owns the account and card actors, creates them on first use,
//! routes each operation to them, and turns their answers into one result.
//!
//! Messages between the actors are delivered at once and in order, so an
//! operation is complete when `handle` returns and every actor is idle again.

use vstd::prelude::*;

use super::account::{AccountActor, AccountOutput};
use super::card::{
    charge_request, lemma_drain_single, spec_drain, CardActor, CardChargeOp, CardOutput, CardTask,
};
use super::messages::{
    completed, AccountChargeReply, AccountMsg, ActorEvent, CardMsg, RouterCmd, RouterInternalMsg,
};
use super::model::{
    account_index, below_usage, card_index, cards_of, lemma_cards_of_empty, lemma_cards_of_len_bounded,
    lemma_cards_of_len_mono, lemma_cards_of_saturated, lemma_cards_of_step, lemma_take_all, ensure_account, ensure_card, fresh_account,
    fresh_card, has_account, has_card, ledger_wf, query_total, replace_accounts, replace_cards,
    reset_cards, set_account, set_card, spec_charge, spec_replace,
    spec_execute, spec_limit_account, spec_limit_card, spec_query, LedgerView, ResultView,
    same_keys, lemma_wf_same_keys,
};
use crate::address::NodeAddr;
use crate::errors::{LimitCheckError, VerifyError};
use crate::operation::{
    limit_allows, sat, sat_sum, within_limit, AccountQueryResult, AccountSnapshot, CardSnapshot,
    ChargeResult, DatabaseSnapshot, LimitResult, Operation, OperationResult,
};

verus! {

impl View for OperationResult {
    type V = ResultView;

    open spec fn view(&self) -> ResultView {
        match self {
            OperationResult::Charge(r) => ResultView::Charge(*r),
            OperationResult::LimitAccount(r) => ResultView::LimitAccount(*r),
            OperationResult::LimitCard(r) => ResultView::LimitCard(*r),
            OperationResult::AccountQuery(q) => ResultView::AccountQuery {
                account_id: q.account_id,
                total_spent: q.total_spent,
                per_card_spent: q.per_card_spent@,
            },
            OperationResult::DatabaseSnapshot(s) => ResultView::DatabaseSnapshot {
                addr: s.addr,
                accounts: s.accounts@,
                cards: s.cards@,
            },
            OperationResult::ReplaceDatabase => ResultView::ReplaceDatabase,
        }
    }
}

/// A database snapshot being assembled from the actors' parts.
pub struct PendingDatabaseSnapshot {
    pub addr: NodeAddr,
    pub expected_accounts: usize,
    pub expected_cards: usize,
    pub accounts: Vec<AccountSnapshot>,
    pub cards: Vec<CardSnapshot>,
}

/// Returns the snapshot when every expected part has arrived.
pub fn try_complete_db_snapshot(pending: PendingDatabaseSnapshot) -> (res: Result<
    DatabaseSnapshot,
    PendingDatabaseSnapshot,
>)
    ensures
        (pending.accounts@.len() == pending.expected_accounts && pending.cards@.len()
            == pending.expected_cards) ==> (res matches Ok(s) && s.addr == pending.addr
            && s.accounts@ == pending.accounts@ && s.cards@ == pending.cards@),
        !(pending.accounts@.len() == pending.expected_accounts && pending.cards@.len()
            == pending.expected_cards) ==> (res matches Err(p) && p.addr == pending.addr
            && p.accounts@ == pending.accounts@ && p.cards@ == pending.cards@ && p.expected_accounts
            == pending.expected_accounts && p.expected_cards == pending.expected_cards),
{
    if pending.accounts.len() == pending.expected_accounts && pending.cards.len()
        == pending.expected_cards {
        Ok(DatabaseSnapshot { addr: pending.addr, accounts: pending.accounts, cards: pending.cards })
    } else {
        Err(pending)
    }
}

/// Router that owns and routes to the account and card actors.
pub struct ActorRouter {
    /// One actor per account, in creation order.
    pub accounts: Vec<AccountActor>,
    /// One actor per card, in creation order.
    pub cards: Vec<CardActor>,
}

impl ActorRouter {
    /// The business state the actors hold.
    pub open spec fn view(&self) -> LedgerView {
        LedgerView {
            accounts: self.accounts@.map_values(|a: AccountActor| a.spec_snapshot()),
            cards: self.cards@.map_values(|c: CardActor| c.spec_snapshot()),
        }
    }

    /// The actors form a well-formed state and are all idle.
    pub open spec fn wf(&self) -> bool {
        &&& ledger_wf(self.view())
        &&& forall|i: int| 0 <= i < self.accounts@.len() ==> (#[trigger] self.accounts@[i]).pending_query is None
        &&& forall|i: int| 0 <= i < self.cards@.len() ==> (#[trigger] self.cards@[i]).is_idle()
    }

    /// A router with no actors.
    pub fn new() -> (r: ActorRouter)
        ensures
            r.wf(),
            r.view() == super::model::empty_ledger(),
    {
        let r = ActorRouter { accounts: Vec::new(), cards: Vec::new() };
        assert(r.view().accounts =~= Seq::<AccountSnapshot>::empty());
        assert(r.view().cards =~= Seq::<CardSnapshot>::empty());
        r
    }

    /// The position of the account, if it exists.
    fn find_account(&self, account_id: u64) -> (res: Option<usize>)
        requires
            self.wf(),
        ensures
            res is None <==> !has_account(self.view(), account_id),
            res matches Some(i) ==> i == account_index(self.view(), account_id) && i
                < self.accounts@.len(),
    {
        let mut i: usize = 0;
        while i < self.accounts.len()
            invariant
                self.wf(),
                0 <= i <= self.accounts@.len(),
                forall|j: int| 0 <= j < i ==> self.accounts@[j].account_id != account_id,
            decreases self.accounts@.len() - i,
        {
            if self.accounts[i].account_id == account_id {
                proof {
                    let v = self.view();
                    assert(v.accounts[i as int].account_id == account_id);
                    let k = account_index(v, account_id);
                    assert(v.accounts[k].account_id == account_id);
                    assert(ledger_wf(v));
                    if k != i as int {
                        assert(v.accounts[k].account_id != v.accounts[i as int].account_id);
                    }
                }
                return Some(i);
            }
            i = i + 1;
        }
        proof {
            let v = self.view();
            if has_account(v, account_id) {
                let k = choose|k: int| 0 <= k < v.accounts.len() && v.accounts[k].account_id == account_id;
                assert(self.accounts@[k].account_id == account_id);
            }
        }
        None
    }

    /// The position of the card, if it exists.
    fn find_card(&self, account_id: u64, card_id: u64) -> (res: Option<usize>)
        requires
            self.wf(),
        ensures
            res is None <==> !has_card(self.view(), account_id, card_id),
            res matches Some(i) ==> i == card_index(self.view(), account_id, card_id) && i
                < self.cards@.len(),
    {
        let mut i: usize = 0;
        while i < self.cards.len()
            invariant
                self.wf(),
                0 <= i <= self.cards@.len(),
                forall|j: int|
                    0 <= j < i ==> !(self.cards@[j].account_id == account_id
                        && self.cards@[j].card_id == card_id),
            decreases self.cards@.len() - i,
        {
            if self.cards[i].account_id == account_id && self.cards[i].card_id == card_id {
                proof {
                    let v = self.view();
                    assert(v.cards[i as int].account_id == account_id);
                    let k = card_index(v, account_id, card_id);
                    assert(v.cards[k].account_id == account_id);
                    assert(ledger_wf(v));
                    if k != i as int {
                        assert(!(v.cards[k].account_id == v.cards[i as int].account_id
                            && v.cards[k].card_id == v.cards[i as int].card_id));
                    }
                }
                return Some(i);
            }
            i = i + 1;
        }
        proof {
            let v = self.view();
            if has_card(v, account_id, card_id) {
                let k = choose|k: int|
                    0 <= k < v.cards.len() && v.cards[k].account_id == account_id && v.cards[k].card_id
                        == card_id;
                assert(self.cards@[k].account_id == account_id);
            }
        }
        None
    }

    /// Returns the position of the account, creating it if it is missing.
    pub fn get_or_create_account(&mut self, account_id: u64) -> (i: usize)
        requires
            old(self).wf(),
        ensures
            final(self).wf(),
            final(self).view() == ensure_account(old(self).view(), account_id),
            has_account(final(self).view(), account_id),
            i == account_index(final(self).view(), account_id),
            i < final(self).accounts@.len(),
            final(self).cards@ == old(self).cards@,
    {
        match self.find_account(account_id) {
            Some(i) => i,
            None => {
                let ghost v0 = self.view();
                self.accounts.push(AccountActor::new(account_id));
                let i = self.accounts.len() - 1;
                proof {
                    let v = self.view();
                    assert(v.accounts =~= v0.accounts.push(fresh_account(account_id)));
                    assert(v.accounts[i as int].account_id == account_id);
                    assert forall|c: int| 0 <= c < v.cards.len() implies has_account(
                        v,
                        #[trigger] v.cards[c].account_id,
                    ) by {
                        let k = choose|k: int|
                            0 <= k < v0.accounts.len() && v0.accounts[k].account_id
                                == v0.cards[c].account_id;
                        assert(v.accounts[k] == v0.accounts[k]);
                    }
                    let k = account_index(v, account_id);
                    assert(v.accounts[k].account_id == account_id);
                    if k != i {
                        assert(v.accounts[k] == v0.accounts[k]);
                    }
                    assert forall|q: int| 0 <= q < self.accounts@.len() implies (
                    #[trigger] self.accounts@[q]).pending_query is None by {
                        if q < v0.accounts.len() {
                            assert(self.accounts@[q] == old(self).accounts@[q]);
                        }
                    }
                }
                i
            },
        }
    }

    /// Returns the position of the card, creating it (and its account) if it
    /// is missing.
    pub fn get_or_create_card(&mut self, account_id: u64, card_id: u64) -> (i: usize)
        requires
            old(self).wf(),
        ensures
            final(self).wf(),
            final(self).view() == ensure_card(old(self).view(), account_id, card_id),
            has_card(final(self).view(), account_id, card_id),
            i == card_index(final(self).view(), account_id, card_id),
            i < final(self).cards@.len(),
    {
        match self.find_card(account_id, card_id) {
            Some(i) => {
                proof {
                    let v = self.view();
                    let k = card_index(v, account_id, card_id);
                    assert(has_account(v, v.cards[k].account_id));
                }
                i
            },
            None => {
                self.get_or_create_account(account_id);
                let ghost v0 = self.view();
                assert(!has_card(v0, account_id, card_id));
                self.cards.push(CardActor::new(card_id, account_id));
                let i = self.cards.len() - 1;
                proof {
                    let v = self.view();
                    assert(v.cards =~= v0.cards.push(fresh_card(account_id, card_id)));
                    assert(v.cards[i as int].account_id == account_id);
                    assert(v.cards[i as int].card_id == card_id);
                    assert forall|c: int| 0 <= c < v.cards.len() implies has_account(
                        v,
                        #[trigger] v.cards[c].account_id,
                    ) by {
                        if c < v0.cards.len() {
                            assert(v.cards[c] == v0.cards[c]);
                            assert(has_account(v0, v0.cards[c].account_id));
                        }
                    }
                    let k = card_index(v, account_id, card_id);
                    if k != i {
                        assert(v.cards[k] == v0.cards[k]);
                    }
                    assert forall|q: int| 0 <= q < self.cards@.len() implies (
                    #[trigger] self.cards@[q]).is_idle() by {
                    }
                }
                i
            },
        }
    }
}

} // verus!

verus! {

/// Success flag and error of a result.
pub open spec fn outcome_of(r: ResultView) -> (bool, Option<VerifyError>) {
    match r {
        ResultView::Charge(ChargeResult::Failed(e)) => (false, Some(e)),
        ResultView::LimitAccount(LimitResult::Failed(e)) => (false, Some(e)),
        ResultView::LimitCard(LimitResult::Failed(e)) => (false, Some(e)),
        _ => (true, None),
    }
}

/// The result of a charge from its completion.
pub fn charge_result(success: bool, error: Option<VerifyError>) -> (r: ChargeResult)
    requires
        success || error is Some,
    ensures
        success ==> r == ChargeResult::Accepted,
        !success ==> r == ChargeResult::Failed(error->Some_0),
{
    if success {
        ChargeResult::Accepted
    } else {
        match error {
            Some(e) => ChargeResult::Failed(e),
            None => ChargeResult::Accepted,
        }
    }
}

/// The result of a limit change from its completion.
pub fn limit_result(success: bool, error: Option<VerifyError>) -> (r: LimitResult)
    requires
        success || error is Some,
    ensures
        success ==> r == LimitResult::Accepted,
        !success ==> r == LimitResult::Failed(error->Some_0),
{
    if success {
        LimitResult::Accepted
    } else {
        match error {
            Some(e) => LimitResult::Failed(e),
            None => LimitResult::Accepted,
        }
    }
}

impl ActorRouter {
    /// Runs a charge through its card and then its account.
    fn execute_charge(
        &mut self,
        op_id: u32,
        account_id: u64,
        card_id: u64,
        amount: i64,
        from_offline_station: bool,
    ) -> (res: (OperationResult, bool, Option<VerifyError>))
        requires
            old(self).wf(),
        ensures
            final(self).wf(),
            (final(self).view(), res.0@) == spec_charge(
                old(self).view(),
                account_id,
                card_id,
                amount,
                from_offline_station,
            ),
            (res.1, res.2) == outcome_of(res.0@),
    {
        let ci = self.get_or_create_card(account_id, card_id);
        let ghost v1 = self.view();
        proof {
            assert(has_account(v1, v1.cards[ci as int].account_id));
        }
        let ai = self.get_or_create_account(account_id);
        assert(self.view() == v1);
        let ghost card0 = self.cards@[ci as int];
        let ghost acc0 = self.accounts@[ai as int];
        assert(card0.spec_snapshot() == v1.cards[ci as int]);
        assert(acc0.spec_snapshot() == v1.accounts[ai as int]);
        let task = CardTask::Charge(CardChargeOp { op_id, account_id, amount, from_offline_station });
        proof {
            lemma_drain_single(card0.card_id, card0.limit, card0.consumed, task);
        }
        let outs = self.cards[ci].handle(
            CardMsg::ExecuteCharge { op_id, account_id, card_id, amount, from_offline_station },
        );
        let ghost v2 = self.view();
        proof {
            assert(v2.cards =~= v1.cards.update(ci as int, self.cards@[ci as int].spec_snapshot()));
            assert(v2.accounts == v1.accounts);
        }
        let to_account = match &outs[0] {
            CardOutput::ToRouter(RouterInternalMsg::OperationCompleted { success, error, .. }) => {
                // refused by the card limit: the card is idle again
                let success = *success;
                let error = *error;
                proof {
                    assert(!from_offline_station && !within_limit(card0.limit, card0.consumed, amount));
                    assert(self.cards@[ci as int].spec_snapshot() == card0.spec_snapshot());
                    assert(v2 =~= v1);
                }
                return (OperationResult::Charge(charge_result(success, error)), success, error);
            },
            CardOutput::ToAccount(msg) => *msg,
            _ => {
                proof {
                    assert(false);
                }
                return (OperationResult::ReplaceDatabase, true, None);
            },
        };
        assert(to_account == charge_request(card_id, CardChargeOp { op_id, account_id, amount, from_offline_station }));
        let aouts = self.accounts[ai].handle(to_account);
        let reply = match &aouts[0] {
            AccountOutput::ReplyToCard { reply, .. } => *reply,
            AccountOutput::ToRouter(_) => AccountChargeReply { op_id, success: false, error: None },
        };
        let ghost accepted = from_offline_station || within_limit(acc0.account_limit, acc0.account_consumed, amount);
        assert(from_offline_station || within_limit(card0.limit, card0.consumed, amount));
        assert(reply.success == accepted);
        assert(reply.op_id == op_id);
        assert(self.cards@[ci as int].current_task == Some(task));
        assert(self.cards@[ci as int].queue@.len() == 0);
        let couts = self.cards[ci].handle_account_reply(reply);
        let (success, error) = match &couts[0] {
            CardOutput::ToRouter(RouterInternalMsg::OperationCompleted { success, error, .. }) => (
                *success,
                *error,
            ),
            _ => (true, None),
        };
        proof {
            let e = spec_drain(card0.card_id, card0.limit, self.cards@[ci as int].consumed, Seq::<CardTask>::empty());
            assert(e.3 =~= Seq::<CardOutput>::empty());
            assert(success == accepted);
            let v3 = self.view();
            assert(v3.cards =~= v1.cards.update(ci as int, self.cards@[ci as int].spec_snapshot()));
            assert(v3.accounts =~= v1.accounts.update(ai as int, self.accounts@[ai as int].spec_snapshot()));
            lemma_wf_same_keys(v1, v3);
            let sc = spec_charge(old(self).view(), account_id, card_id, amount, from_offline_station);
            assert(v1 == ensure_card(old(self).view(), account_id, card_id));
            assert(ci as int == card_index(v1, account_id, card_id));
            assert(ai as int == account_index(v1, account_id));
            assert(v3 =~= sc.0);
            assert forall|q: int| 0 <= q < self.cards@.len() implies (#[trigger] self.cards@[q]).is_idle() by {
            }
        }
        (OperationResult::Charge(charge_result(success, error)), success, error)
    }
}

} // verus!

verus! {

impl ActorRouter {
    /// Runs an account-limit change through the account.
    fn execute_limit_account(&mut self, op_id: u32, account_id: u64, new_limit: Option<i64>) -> (res:
        (OperationResult, bool, Option<VerifyError>))
        requires
            old(self).wf(),
        ensures
            final(self).wf(),
            (final(self).view(), res.0@) == spec_limit_account(old(self).view(), account_id, new_limit),
            (res.1, res.2) == outcome_of(res.0@),
    {
        let ai = self.get_or_create_account(account_id);
        let ghost v1 = self.view();
        let ghost acc0 = self.accounts@[ai as int];
        let ghost accs1 = self.accounts@;
        assert(acc0.spec_snapshot() == v1.accounts[ai as int]);
        let outs = self.accounts[ai].handle(AccountMsg::ApplyAccountLimit { op_id, new_limit });
        let (success, error) = match &outs[0] {
            AccountOutput::ToRouter(RouterInternalMsg::OperationCompleted { success, error, .. }) => (
                *success,
                *error,
            ),
            _ => (true, None),
        };
        proof {
            let v2 = self.view();
            assert(v2.accounts =~= v1.accounts.update(ai as int, self.accounts@[ai as int].spec_snapshot()));
            assert(v2.cards == v1.cards);
            lemma_wf_same_keys(v1, v2);
            assert forall|q: int| 0 <= q < self.accounts@.len() implies (#[trigger] self.accounts@[q]).pending_query is None by {
                if q != ai as int {
                    assert(self.accounts@[q] == accs1[q]);
                }
            }
            let sl = spec_limit_account(old(self).view(), account_id, new_limit);
            assert(v2 =~= sl.0);
        }
        (OperationResult::LimitAccount(limit_result(success, error)), success, error)
    }

    /// Runs a card-limit change through the card.
    fn execute_limit_card(
        &mut self,
        op_id: u32,
        account_id: u64,
        card_id: u64,
        new_limit: Option<i64>,
    ) -> (res: (OperationResult, bool, Option<VerifyError>))
        requires
            old(self).wf(),
        ensures
            final(self).wf(),
            (final(self).view(), res.0@) == spec_limit_card(
                old(self).view(),
                account_id,
                card_id,
                new_limit,
            ),
            (res.1, res.2) == outcome_of(res.0@),
    {
        let ci = self.get_or_create_card(account_id, card_id);
        let ghost v1 = self.view();
        let ghost card0 = self.cards@[ci as int];
        assert(card0.spec_snapshot() == v1.cards[ci as int]);
        let task = CardTask::LimitChange { op_id, new_limit };
        proof {
            lemma_drain_single(card0.card_id, card0.limit, card0.consumed, task);
        }
        let outs = self.cards[ci].handle(CardMsg::ExecuteLimitChange { op_id, new_limit });
        let (success, error) = match &outs[0] {
            CardOutput::ToRouter(RouterInternalMsg::OperationCompleted { success, error, .. }) => (
                *success,
                *error,
            ),
            _ => (true, None),
        };
        proof {
            let v2 = self.view();
            assert(v2.cards =~= v1.cards.update(ci as int, self.cards@[ci as int].spec_snapshot()));
            assert(v2.accounts == v1.accounts);
            lemma_wf_same_keys(v1, v2);
            let sl = spec_limit_card(old(self).view(), account_id, card_id, new_limit);
            assert(v2 =~= sl.0);
        }
        (OperationResult::LimitCard(limit_result(success, error)), success, error)
    }
}

} // verus!

verus! {

/// The cards after a query or bill has visited the first `j` of them.
pub open spec fn cards_after_visit(
    cards: Seq<CardSnapshot>,
    account_id: u64,
    reset: bool,
    j: int,
) -> Seq<CardSnapshot> {
    if reset {
        reset_cards(cards.take(j), account_id) + cards.subrange(j, cards.len() as int)
    } else {
        cards
    }
}

impl ActorRouter {
    /// Counts the cards that belong to the account.
    fn count_cards_of(&self, account_id: u64) -> (n: usize)
        ensures
            n == cards_of(self.view().cards, account_id).len(),
    {
        let ghost s = self.view().cards;
        let mut n: usize = 0;
        let mut j: usize = 0;
        while j < self.cards.len()
            invariant
                s == self.view().cards,
                0 <= j <= self.cards@.len(),
                n == cards_of(s.take(j as int), account_id).len(),
            decreases self.cards@.len() - j,
        {
            proof {
                lemma_cards_of_step(s, j as int, account_id);
                lemma_cards_of_len_mono(s, j as int + 1, s.len() as int, account_id);
                lemma_take_all(s);
                assert(cards_of(s, account_id).len() <= s.len()) by {
                    lemma_cards_of_len_bounded(s, account_id);
                }
            }
            if self.cards[j].account_id == account_id {
                n = n + 1;
            }
            j = j + 1;
        }
        proof {
            lemma_take_all(s);
        }
        n
    }

    /// Runs an account query (or, with `reset`, a bill): the account expects
    /// one report per card, each card of the account reports its consumption
    /// (and resets it for a bill), and the account answers once all reports
    /// are in.
    fn execute_query(&mut self, op_id: u32, account_id: u64, reset: bool) -> (res: (
        OperationResult,
        bool,
        Option<VerifyError>,
    ))
        requires
            old(self).wf(),
        ensures
            final(self).wf(),
            (final(self).view(), res.0@) == spec_query(old(self).view(), account_id, reset),
            res.1 && res.2 is None,
    {
        let ai = self.get_or_create_account(account_id);
        let ghost v1 = self.view();
        let ghost acc0 = self.accounts@[ai as int];
        let ghost accs1 = self.accounts@;
        let ghost per = cards_of(v1.cards, account_id);
        assert(acc0.spec_snapshot() == v1.accounts[ai as int]);
        let n = self.count_cards_of(account_id);
        let start_msg = if reset {
            AccountMsg::StartAccountBill { op_id, num_cards: n }
        } else {
            AccountMsg::StartAccountQuery { op_id, num_cards: n }
        };
        let mut outs0 = self.accounts[ai].handle(start_msg);
        let mut report: Option<AccountQueryResult> = None;
        if n == 0 {
            match outs0.pop() {
                Some(
                    AccountOutput::ToRouter(
                        RouterInternalMsg::AccountQueryCompleted {
                            account_id,
                            total_spent,
                            per_card_spent,
                            ..
                        },
                    ),
                ) => {
                    report = Some(AccountQueryResult { account_id, total_spent, per_card_spent });
                },
                _ => {},
            }
            proof {
                lemma_cards_of_empty(v1.cards, account_id);
                let v2 = self.view();
                assert(v2.cards == v1.cards);
                assert(v2.accounts =~= v1.accounts.update(ai as int, self.accounts@[ai as int].spec_snapshot()));
                lemma_wf_same_keys(v1, v2);
                assert forall|q: int| 0 <= q < self.accounts@.len() implies (#[trigger] self.accounts@[q]).pending_query is None by {
                    if q != ai as int {
                        assert(self.accounts@[q] == accs1[q]);
                    }
                }
                let sq = spec_query(old(self).view(), account_id, reset);
                assert(v2 =~= sq.0);
            }
        } else {
            let mut j: usize = 0;
            while j < self.cards.len()
                invariant
                    n > 0,
                    n == per.len(),
                    per == cards_of(v1.cards, account_id),
                    ai < self.accounts@.len(),
                    self.accounts@.len() == v1.accounts.len(),
                    self.cards@.len() == v1.cards.len(),
                    0 <= j <= self.cards@.len(),
                    forall|q: int| 0 <= q < self.accounts@.len() && q != ai ==> self.accounts@[q] == accs1[q],
                    self.view().cards == cards_after_visit(v1.cards, account_id, reset, j as int),
                    forall|q: int| 0 <= q < self.cards@.len() ==> (#[trigger] self.cards@[q]).is_idle(),
                    self.accounts@[ai as int].account_id == account_id,
                    self.accounts@[ai as int].account_limit == acc0.account_limit,
                    cards_of(v1.cards.take(j as int), account_id).len() < n ==> {
                        &&& report is None
                        &&& super::account::is_pending(
                            self.accounts@[ai as int].pending_query,
                            op_id,
                            (n - cards_of(v1.cards.take(j as int), account_id).len()) as usize,
                            cards_of(v1.cards.take(j as int), account_id),
                            reset,
                        )
                        &&& self.accounts@[ai as int].account_consumed == acc0.account_consumed
                    },
                    cards_of(v1.cards.take(j as int), account_id).len() == n ==> {
                        &&& report matches Some(r) && r.account_id == account_id && r.total_spent
                            == sat_sum(per) && r.per_card_spent@ == per
                        &&& self.accounts@[ai as int].pending_query is None
                        &&& self.accounts@[ai as int].account_consumed == if reset {
                            0
                        } else {
                            acc0.account_consumed
                        }
                    },
                decreases self.cards@.len() - j,
            {
                let ghost cnt = cards_of(v1.cards.take(j as int), account_id);
                let ghost cards_j = self.cards@;
                let ghost vc = self.view().cards;
                proof {
                    lemma_cards_of_step(v1.cards, j as int, account_id);
                    lemma_cards_of_len_mono(v1.cards, j as int + 1, v1.cards.len() as int, account_id);
                    lemma_take_all(v1.cards);
                    assert(self.view().cards[j as int] == v1.cards[j as int]);
                }
                if self.cards[j].account_id == account_id {
                    let couts = self.cards[j].handle(
                        CardMsg::QueryCardState { op_id, account_id, reset_after_report: reset },
                    );
                    let reply_msg = match &couts[0] {
                        CardOutput::ToAccount(m) => *m,
                        _ => AccountMsg::GetSnapshot { op_id },
                    };
                    let mut aouts = self.accounts[ai].handle(reply_msg);
                    if aouts.len() == 1 {
                        match aouts.pop() {
                            Some(
                                AccountOutput::ToRouter(
                                    RouterInternalMsg::AccountQueryCompleted {
                                        account_id,
                                        total_spent,
                                        per_card_spent,
                                        ..
                                    },
                                ),
                            ) => {
                                report = Some(
                                    AccountQueryResult { account_id, total_spent, per_card_spent },
                                );
                            },
                            _ => {},
                        }
                    }
                    proof {
                        let cnt2 = cards_of(v1.cards.take(j as int + 1), account_id);
                        assert(cnt2 == cnt.push((v1.cards[j as int].card_id, v1.cards[j as int].consumed)));
                        if cnt2.len() == n {
                            lemma_cards_of_saturated(v1.cards, j as int + 1, v1.cards.len() as int, account_id);
                        }
                        let c0 = cards_j[j as int];
                        let c1 = self.cards@[j as int];
                        assert(self.cards@ == cards_j.update(j as int, c1));
                        assert(c1.spec_snapshot() == CardSnapshot {
                            consumed: if reset { 0 } else { c0.consumed },
                            ..c0.spec_snapshot()
                        });
                        assert(self.view().cards =~= vc.update(j as int, c1.spec_snapshot()));
                        let target = cards_after_visit(v1.cards, account_id, reset, j as int + 1);
                        assert forall|k: int| 0 <= k < vc.len() implies #[trigger] self.view().cards[k] == target[k] by {
                            if k < j {
                                assert(vc[k] == cards_after_visit(v1.cards, account_id, reset, j as int)[k]);
                            } else if k == j {
                            } else {
                                assert(vc[k] == cards_after_visit(v1.cards, account_id, reset, j as int)[k]);
                            }
                        }
                        assert(self.view().cards =~= target);
                    }
                } else {
                    proof {
                        assert(self.view().cards =~= cards_after_visit(v1.cards, account_id, reset, j as int + 1));
                    }
                }
                j = j + 1;
            }
            proof {
                lemma_take_all(v1.cards);
                let v2 = self.view();
                assert(v2.accounts =~= v1.accounts.update(ai as int, self.accounts@[ai as int].spec_snapshot()));
                assert(v1.cards.subrange(v1.cards.len() as int, v1.cards.len() as int) =~= Seq::<CardSnapshot>::empty());
                assert(v2.cards =~= if reset { reset_cards(v1.cards, account_id) } else { v1.cards });
                lemma_wf_same_keys(v1, v2);
                assert forall|q: int| 0 <= q < self.accounts@.len() implies (#[trigger] self.accounts@[q]).pending_query is None by {
                    if q != ai as int {
                        assert(self.accounts@[q] == accs1[q]);
                    }
                }
                let sq = spec_query(old(self).view(), account_id, reset);
                assert(v2 =~= sq.0);
            }
        }
        proof {
            let sq = spec_query(old(self).view(), account_id, reset);
            assert(report is Some);
            assert(report->Some_0.account_id == account_id);
            assert(report->Some_0.per_card_spent@ == per);
            assert(report->Some_0.total_spent == query_total(v1.accounts[ai as int], per));
        }
        match report {
            Some(r) => (OperationResult::AccountQuery(r), true, None),
            None => (
                OperationResult::AccountQuery(
                    AccountQueryResult { account_id, total_spent: 0, per_card_spent: Vec::new() },
                ),
                true,
                None,
            ),
        }
    }
}

} // verus!

verus! {

impl ActorRouter {
    /// Collects every account's and every card's snapshot.
    fn execute_get_database(&self, addr: NodeAddr) -> (res: OperationResult)
        requires
            self.wf(),
        ensures
            res@ == (ResultView::DatabaseSnapshot {
                addr,
                accounts: self.view().accounts,
                cards: self.view().cards,
            }),
    {
        let ghost v0 = self.view();
        let mut pending = PendingDatabaseSnapshot {
            addr,
            expected_accounts: self.accounts.len(),
            expected_cards: self.cards.len(),
            accounts: Vec::new(),
            cards: Vec::new(),
        };
        let mut i: usize = 0;
        while i < self.accounts.len()
            invariant
                v0 == self.view(),
                0 <= i <= self.accounts@.len(),
                pending.addr == addr,
                pending.expected_accounts == self.accounts@.len(),
                pending.expected_cards == self.cards@.len(),
                pending.accounts@ == v0.accounts.take(i as int),
                pending.cards@.len() == 0,
                i == pending.accounts@.len(),
            decreases self.accounts@.len() - i,
        {
            pending.accounts.push(self.accounts[i].snapshot());
            proof {
                assert(pending.accounts@ =~= v0.accounts.take(i as int + 1));
            }
            i = i + 1;
        }
        let mut j: usize = 0;
        while j < self.cards.len()
            invariant
                v0 == self.view(),
                0 <= j <= self.cards@.len(),
                pending.addr == addr,
                pending.expected_accounts == self.accounts@.len(),
                pending.expected_cards == self.cards@.len(),
                pending.accounts@ == v0.accounts,
                pending.cards@ == v0.cards.take(j as int),
            decreases self.cards@.len() - j,
        {
            pending.cards.push(self.cards[j].snapshot());
            proof {
                assert(pending.cards@ =~= v0.cards.take(j as int + 1));
            }
            j = j + 1;
        }
        proof {
            lemma_take_all(v0.cards);
            lemma_take_all(v0.accounts);
        }
        match try_complete_db_snapshot(pending) {
            Ok(snapshot) => OperationResult::DatabaseSnapshot(snapshot),
            Err(p) => OperationResult::DatabaseSnapshot(
                DatabaseSnapshot { addr: p.addr, accounts: p.accounts, cards: p.cards },
            ),
        }
    }
}

} // verus!

verus! {

impl ActorRouter {
    /// Applies each account snapshot, then each card snapshot, creating the
    /// actors that are missing.
    fn execute_replace(&mut self, snapshot: &DatabaseSnapshot) -> (res: OperationResult)
        requires
            old(self).wf(),
        ensures
            final(self).wf(),
            final(self).view() == spec_replace(old(self).view(), snapshot.accounts@, snapshot.cards@),
            res@ == ResultView::ReplaceDatabase,
    {
        let ghost v0 = self.view();
        let mut i: usize = 0;
        while i < snapshot.accounts.len()
            invariant
                self.wf(),
                0 <= i <= snapshot.accounts@.len(),
                self.view() == replace_accounts(v0, snapshot.accounts@.take(i as int)),
            decreases snapshot.accounts@.len() - i,
        {
            let s = snapshot.accounts[i];
            let ghost vb = self.view();
            let idx = self.get_or_create_account(s.account_id);
            let ghost ve = self.view();
            let ghost accs = self.accounts@;
            self.accounts[idx].handle(AccountMsg::ReplaceState { new_limit: s.limit, new_consumed: s.consumed });
            proof {
                let v2 = self.view();
                assert(accs[idx as int].account_id == s.account_id);
                assert(self.accounts@[idx as int].spec_snapshot() == s);
                assert(v2.accounts =~= ve.accounts.update(idx as int, s));
                assert(v2.cards == ve.cards);
                assert(v2 =~= set_account(vb, s));
                lemma_wf_same_keys(ve, v2);
                assert forall|q: int| 0 <= q < self.accounts@.len() implies (#[trigger] self.accounts@[q]).pending_query is None by {
                    if q != idx as int {
                        assert(self.accounts@[q] == accs[q]);
                    }
                }
                let t = snapshot.accounts@.take(i as int + 1);
                assert(t.drop_last() =~= snapshot.accounts@.take(i as int));
                assert(t.last() == s);
            }
            i = i + 1;
        }
        proof {
            lemma_take_all(snapshot.accounts@);
        }
        let ghost va = self.view();
        let mut j: usize = 0;
        while j < snapshot.cards.len()
            invariant
                self.wf(),
                0 <= j <= snapshot.cards@.len(),
                self.view() == replace_cards(va, snapshot.cards@.take(j as int)),
            decreases snapshot.cards@.len() - j,
        {
            let s = snapshot.cards[j];
            let ghost vb = self.view();
            let idx = self.get_or_create_card(s.account_id, s.card_id);
            let ghost ve = self.view();
            let ghost cs = self.cards@;
            self.cards[idx].handle(CardMsg::ReplaceState { new_limit: s.limit, new_consumed: s.consumed });
            proof {
                let v2 = self.view();
                assert(cs[idx as int].account_id == s.account_id);
                assert(cs[idx as int].card_id == s.card_id);
                assert(self.cards@[idx as int].spec_snapshot() == s);
                assert(v2.cards =~= ve.cards.update(idx as int, s));
                assert(v2.accounts == ve.accounts);
                assert(v2 =~= set_card(vb, s));
                lemma_wf_same_keys(ve, v2);
                assert forall|q: int| 0 <= q < self.cards@.len() implies (#[trigger] self.cards@[q]).is_idle() by {
                    if q != idx as int {
                        assert(self.cards@[q] == cs[q]);
                    }
                }
                let t = snapshot.cards@.take(j as int + 1);
                assert(t.drop_last() =~= snapshot.cards@.take(j as int));
                assert(t.last() == s);
            }
            j = j + 1;
        }
        proof {
            lemma_take_all(snapshot.cards@);
        }
        OperationResult::ReplaceDatabase
    }

    /// Executes one operation to completion.
    pub fn execute(&mut self, op_id: u32, operation: &Operation) -> (res: (
        OperationResult,
        bool,
        Option<VerifyError>,
    ))
        requires
            old(self).wf(),
        ensures
            final(self).wf(),
            (final(self).view(), res.0@) == spec_execute(old(self).view(), *operation),
            (res.1, res.2) == outcome_of(res.0@),
    {
        match operation {
            Operation::Charge { account_id, card_id, amount, from_offline_station } => self.execute_charge(
                op_id,
                *account_id,
                *card_id,
                *amount,
                *from_offline_station,
            ),
            Operation::LimitAccount { account_id, new_limit } => self.execute_limit_account(
                op_id,
                *account_id,
                *new_limit,
            ),
            Operation::LimitCard { account_id, card_id, new_limit } => self.execute_limit_card(
                op_id,
                *account_id,
                *card_id,
                *new_limit,
            ),
            Operation::AccountQuery { account_id } => self.execute_query(op_id, *account_id, false),
            Operation::Bill { account_id, .. } => self.execute_query(op_id, *account_id, true),
            Operation::GetDatabase { addr } => (self.execute_get_database(*addr), true, None),
            Operation::ReplaceDatabase { snapshot } => (self.execute_replace(snapshot), true, None),
        }
    }

    /// Handles a command from the node: an operation runs to completion and
    /// its result is reported together with the operation itself.
    pub fn handle(&mut self, cmd: RouterCmd) -> (ev: ActorEvent)
        requires
            old(self).wf(),
        ensures
            final(self).wf(),
            match cmd {
                RouterCmd::Execute { op_id, operation } => {
                    &&& ev matches ActorEvent::OperationResult {
                        op_id: o,
                        operation: op,
                        result,
                        success,
                        error,
                    }
                    &&& o == op_id
                    &&& op == operation
                    &&& (final(self).view(), result@) == spec_execute(old(self).view(), operation)
                    &&& (success, error) == outcome_of(result@)
                },
                RouterCmd::GetLog => {
                    &&& ev == ActorEvent::Log {
                        accounts: old(self).accounts@.len() as usize,
                        cards: old(self).cards@.len() as usize,
                    }
                    &&& final(self).view() == old(self).view()
                },
            },
    {
        match cmd {
            RouterCmd::Execute { op_id, operation } => {
                let (result, success, error) = self.execute(op_id, &operation);
                ActorEvent::OperationResult { op_id, operation, result, success, error }
            },
            RouterCmd::GetLog => ActorEvent::Log { accounts: self.accounts.len(), cards: self.cards.len() },
        }
    }
}

} // verus!
