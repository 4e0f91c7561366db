//! Laws of the business state.

use vstd::prelude::*;

use super::model::{
    account_index, card_index, cards_of, empty_ledger, ensure_account, ensure_card, has_account,
    has_card, ledger_wf, lemma_ensure_account, lemma_ensure_card, lemma_take_all,
    lemma_wf_same_keys, same_keys, replace_accounts, replace_cards, reset_cards, spec_charge,
    spec_execute, spec_query, spec_replace, LedgerView, ResultView,
};
use super::account::{is_pending, is_query_report, AccountActor, AccountOutput};
use super::messages::AccountMsg;
use crate::errors::{LimitCheckError, VerifyError};
use crate::operation::{
    limit_allows, sat, sat_sum, within_limit, AccountSnapshot, CardSnapshot, ChargeResult,
    Operation,
};

verus! {

/// Every account and every card is within its own limit.
pub open spec fn within_limits(v: LedgerView) -> bool {
    &&& forall|i: int|
        0 <= i < v.accounts.len() ==> limit_allows(
            (#[trigger] v.accounts[i]).limit,
            v.accounts[i].consumed,
        )
    &&& forall|i: int|
        0 <= i < v.cards.len() ==> limit_allows((#[trigger] v.cards[i]).limit, v.cards[i].consumed)
}

/// No limit is negative.
pub open spec fn nonnegative_limits(v: LedgerView) -> bool {
    &&& forall|i: int|
        0 <= i < v.accounts.len() ==> ((#[trigger] v.accounts[i]).limit matches Some(l) ==> l >= 0)
    &&& forall|i: int| 0 <= i < v.cards.len() ==> ((#[trigger] v.cards[i]).limit matches Some(l) ==> l >= 0)
}

/// Whether an operation is subject to the limits: everything but a charge
/// accepted earlier by an offline station, and a snapshot that replaces the state.
pub open spec fn checked_operation(op: Operation) -> bool {
    match op {
        Operation::Charge { from_offline_station, .. } => !from_offline_station,
        Operation::ReplaceDatabase { .. } => false,
        _ => true,
    }
}

/// Creating a missing account keeps the state within limits.
proof fn lemma_ensure_account_within(v: LedgerView, a: u64)
    requires
        within_limits(v),
    ensures
        within_limits(ensure_account(v, a)),
{
    let w = ensure_account(v, a);
    assert forall|i: int| 0 <= i < w.accounts.len() implies limit_allows(
        (#[trigger] w.accounts[i]).limit,
        w.accounts[i].consumed,
    ) by {
        if i < v.accounts.len() {
            assert(w.accounts[i] == v.accounts[i]);
        }
    }
}

/// Creating a missing card keeps the state within limits.
proof fn lemma_ensure_card_within(v: LedgerView, a: u64, c: u64)
    requires
        within_limits(v),
    ensures
        within_limits(ensure_card(v, a, c)),
{
    lemma_ensure_account_within(v, a);
    let v1 = ensure_account(v, a);
    let w = ensure_card(v, a, c);
    assert forall|i: int| 0 <= i < w.cards.len() implies limit_allows(
        (#[trigger] w.cards[i]).limit,
        w.cards[i].consumed,
    ) by {
        if i < v1.cards.len() {
            assert(w.cards[i] == v1.cards[i]);
        }
    }
}

/// An amount added within a limit stays within it after saturation.
proof fn lemma_sat_within(limit: Option<i64>, consumed: i64, amount: i64)
    requires
        within_limit(limit, consumed, amount),
    ensures
        limit_allows(limit, sat(consumed + amount)),
{
}

/// Operations subject to the limits never take an account or a card past its
/// limit: starting within limits, the state stays within limits. A bill
/// resets consumption to zero, which is within a limit when limits are not
/// negative.
pub proof fn lemma_execute_keeps_limits(v: LedgerView, op: Operation)
    requires
        ledger_wf(v),
        within_limits(v),
        checked_operation(op),
        op is Bill ==> nonnegative_limits(v),
    ensures
        within_limits(spec_execute(v, op).0),
{
    match op {
        Operation::Charge { account_id, card_id, amount, from_offline_station } => {
            lemma_ensure_card_within(v, account_id, card_id);
            lemma_ensure_card(v, account_id, card_id);
            let v1 = ensure_card(v, account_id, card_id);
            let w = spec_charge(v, account_id, card_id, amount, from_offline_station).0;
            let ci = card_index(v1, account_id, card_id);
            let ai = account_index(v1, account_id);
            if within_limit(v1.cards[ci].limit, v1.cards[ci].consumed, amount) && within_limit(
                v1.accounts[ai].limit,
                v1.accounts[ai].consumed,
                amount,
            ) {
                lemma_sat_within(v1.cards[ci].limit, v1.cards[ci].consumed, amount);
                lemma_sat_within(v1.accounts[ai].limit, v1.accounts[ai].consumed, amount);
                assert forall|i: int| 0 <= i < w.accounts.len() implies limit_allows(
                    (#[trigger] w.accounts[i]).limit,
                    w.accounts[i].consumed,
                ) by {
                    if i != ai {
                        assert(w.accounts[i] == v1.accounts[i]);
                    }
                }
                assert forall|i: int| 0 <= i < w.cards.len() implies limit_allows(
                    (#[trigger] w.cards[i]).limit,
                    w.cards[i].consumed,
                ) by {
                    if i != ci {
                        assert(w.cards[i] == v1.cards[i]);
                    }
                }
            }
        },
        Operation::LimitAccount { account_id, new_limit } => {
            lemma_ensure_account_within(v, account_id);
            lemma_ensure_account(v, account_id);
            let v1 = ensure_account(v, account_id);
            let ai = account_index(v1, account_id);
            let w = spec_execute(v, op).0;
            assert forall|i: int| 0 <= i < w.accounts.len() implies limit_allows(
                (#[trigger] w.accounts[i]).limit,
                w.accounts[i].consumed,
            ) by {
                if i != ai {
                    assert(w.accounts[i] == v1.accounts[i]);
                }
            }
        },
        Operation::LimitCard { account_id, card_id, new_limit } => {
            lemma_ensure_card_within(v, account_id, card_id);
            lemma_ensure_card(v, account_id, card_id);
            let v1 = ensure_card(v, account_id, card_id);
            let ci = card_index(v1, account_id, card_id);
            let w = spec_execute(v, op).0;
            assert forall|i: int| 0 <= i < w.cards.len() implies limit_allows(
                (#[trigger] w.cards[i]).limit,
                w.cards[i].consumed,
            ) by {
                if i != ci {
                    assert(w.cards[i] == v1.cards[i]);
                }
            }
        },
        Operation::AccountQuery { account_id } => {
            lemma_ensure_account_within(v, account_id);
        },
        Operation::Bill { account_id, .. } => {
            lemma_ensure_account_within(v, account_id);
            lemma_ensure_account(v, account_id);
            let v1 = ensure_account(v, account_id);
            let ai = account_index(v1, account_id);
            let w = spec_execute(v, op).0;
            assert forall|i: int| 0 <= i < w.accounts.len() implies limit_allows(
                (#[trigger] w.accounts[i]).limit,
                w.accounts[i].consumed,
            ) by {
                if i != ai {
                    assert(w.accounts[i] == v1.accounts[i]);
                } else if i < v.accounts.len() {
                    assert(v1.accounts[i] == v.accounts[i]);
                }
            }
            assert forall|i: int| 0 <= i < w.cards.len() implies limit_allows(
                (#[trigger] w.cards[i]).limit,
                w.cards[i].consumed,
            ) by {
                assert(v1.cards[i] == v.cards[i]);
            }
        },
        _ => {},
    }
}

/// A charge is accepted exactly when it comes from an offline station or
/// fits both the card limit and the account limit. An accepted charge adds
/// the amount to the card and to the account and changes nothing else; a
/// refused charge changes no balance. The card limit is checked first.
pub proof fn lemma_charge_outcome(
    v: LedgerView,
    account_id: u64,
    card_id: u64,
    amount: i64,
    from_offline_station: bool,
)
    ensures
        ({
            let v1 = ensure_card(v, account_id, card_id);
            let card = v1.cards[card_index(v1, account_id, card_id)];
            let acc = v1.accounts[account_index(v1, account_id)];
            let (w, r) = spec_charge(v, account_id, card_id, amount, from_offline_station);
            let accepted = from_offline_station || (within_limit(card.limit, card.consumed, amount)
                && within_limit(acc.limit, acc.consumed, amount));
            &&& accepted <==> r == ResultView::Charge(ChargeResult::Accepted)
            &&& !accepted ==> w == v1
            &&& !from_offline_station && !within_limit(card.limit, card.consumed, amount) ==> r
                == ResultView::Charge(
                ChargeResult::Failed(VerifyError::ChargeLimit(LimitCheckError::CardLimitExceeded)),
            )
            &&& accepted ==> {
                &&& w.cards[card_index(v1, account_id, card_id)].consumed == sat(card.consumed + amount)
                &&& w.accounts[account_index(v1, account_id)].consumed == sat(acc.consumed + amount)
                &&& w.cards.len() == v1.cards.len()
                &&& w.accounts.len() == v1.accounts.len()
                &&& forall|i: int|
                    0 <= i < v1.cards.len() && i != card_index(v1, account_id, card_id)
                        ==> #[trigger] w.cards[i] == v1.cards[i]
                &&& forall|i: int|
                    0 <= i < v1.accounts.len() && i != account_index(v1, account_id)
                        ==> #[trigger] w.accounts[i] == v1.accounts[i]
            }
        }),
{
    lemma_ensure_card(v, account_id, card_id);
}

/// A bill reports exactly what a query of the same account would report.
pub proof fn lemma_bill_reports_query(v: LedgerView, account_id: u64)
    ensures
        spec_query(v, account_id, true).1 == spec_query(v, account_id, false).1,
{
}

/// Entries of reset cards are all zero.
proof fn lemma_cards_of_reset(s: Seq<CardSnapshot>, a: u64)
    ensures
        forall|k: int|
            0 <= k < cards_of(reset_cards(s, a), a).len() ==> (#[trigger] cards_of(
                reset_cards(s, a),
                a,
            )[k]).1 == 0,
        cards_of(reset_cards(s, a), a).len() == cards_of(s, a).len(),
    decreases s.len(),
{
    if s.len() > 0 {
        assert(reset_cards(s, a).drop_last() =~= reset_cards(s.drop_last(), a));
        lemma_cards_of_reset(s.drop_last(), a);
    }
}

/// The sum of zero amounts is zero.
proof fn lemma_sat_sum_zero(s: Seq<(u64, i64)>)
    requires
        forall|k: int| 0 <= k < s.len() ==> (#[trigger] s[k]).1 == 0,
    ensures
        sat_sum(s) == 0,
    decreases s.len(),
{
    if s.len() > 0 {
        lemma_sat_sum_zero(s.drop_last());
    }
}

/// After a bill, a query of the same account reports zero in total and zero
/// for each card.
pub proof fn lemma_query_after_bill(v: LedgerView, account_id: u64)
    requires
        ledger_wf(v),
    ensures
        ({
            let w = spec_query(v, account_id, true).0;
            let r = spec_query(w, account_id, false).1;
            &&& r matches ResultView::AccountQuery { total_spent, per_card_spent, .. }
            &&& total_spent == 0
            &&& forall|k: int| 0 <= k < per_card_spent.len() ==> (#[trigger] per_card_spent[k]).1 == 0
        }),
{
    lemma_ensure_account(v, account_id);
    let v1 = ensure_account(v, account_id);
    let ai = account_index(v1, account_id);
    let w = spec_query(v, account_id, true).0;
    assert(same_keys(v1, w));
    lemma_wf_same_keys(v1, w);
    assert(ensure_account(w, account_id) == w);
    assert(account_index(w, account_id) == ai);
    lemma_cards_of_reset(v1.cards, account_id);
    let per = cards_of(w.cards, account_id);
    lemma_sat_sum_zero(per);
}

/// Restoring a well-formed state's own snapshot into an empty state gives
/// back that state: a node that joins ends up with the leader's accounts and
/// cards.
pub proof fn lemma_snapshot_restore(v: LedgerView)
    requires
        ledger_wf(v),
    ensures
        spec_replace(empty_ledger(), v.accounts, v.cards) == v,
{
    lemma_replace_accounts_prefix(v, v.accounts.len() as int);
    lemma_take_all(v.accounts);
    lemma_replace_cards_prefix(v, v.cards.len() as int);
    lemma_take_all(v.cards);
}

/// Restoring the first `i` accounts into an empty state gives those accounts.
proof fn lemma_replace_accounts_prefix(v: LedgerView, i: int)
    requires
        ledger_wf(v),
        0 <= i <= v.accounts.len(),
    ensures
        replace_accounts(empty_ledger(), v.accounts.take(i)) == (LedgerView {
            accounts: v.accounts.take(i),
            cards: Seq::empty(),
        }),
    decreases i,
{
    if i == 0 {
        assert(v.accounts.take(0) =~= Seq::<AccountSnapshot>::empty());
        assert(empty_ledger() =~= LedgerView { accounts: v.accounts.take(0), cards: Seq::empty() });
    } else {
        let t = v.accounts.take(i);
        assert(t.drop_last() =~= v.accounts.take(i - 1));
        lemma_replace_accounts_prefix(v, i - 1);
        let prev = LedgerView { accounts: v.accounts.take(i - 1), cards: Seq::<CardSnapshot>::empty() };
        let s = v.accounts[i - 1];
        assert(t.last() == s);
        assert(!has_account(prev, s.account_id)) by {
            if has_account(prev, s.account_id) {
                let k = choose|k: int| 0 <= k < prev.accounts.len() && prev.accounts[k].account_id == s.account_id;
                assert(v.accounts[k].account_id == s.account_id);
            }
        }
        let e = ensure_account(prev, s.account_id);
        let k = account_index(e, s.account_id);
        assert(e.accounts[i - 1].account_id == s.account_id);
        if k != i - 1 {
            assert(e.accounts[k] == v.accounts[k]);
        }
        assert(e.accounts.update(i - 1, s) =~= t);
        assert(replace_accounts(empty_ledger(), t) =~= LedgerView { accounts: t, cards: Seq::empty() });
    }
}

/// Restoring all accounts and then the first `j` cards into an empty state
/// gives the accounts and those cards.
proof fn lemma_replace_cards_prefix(v: LedgerView, j: int)
    requires
        ledger_wf(v),
        0 <= j <= v.cards.len(),
    ensures
        replace_cards(replace_accounts(empty_ledger(), v.accounts), v.cards.take(j)) == (LedgerView {
            accounts: v.accounts,
            cards: v.cards.take(j),
        }),
    decreases j,
{
    let base = replace_accounts(empty_ledger(), v.accounts);
    lemma_replace_accounts_prefix(v, v.accounts.len() as int);
    lemma_take_all(v.accounts);
    if j == 0 {
        assert(v.cards.take(0) =~= Seq::<CardSnapshot>::empty());
        assert(base =~= LedgerView { accounts: v.accounts, cards: v.cards.take(0) });
    } else {
        let t = v.cards.take(j);
        assert(t.drop_last() =~= v.cards.take(j - 1));
        lemma_replace_cards_prefix(v, j - 1);
        let prev = LedgerView { accounts: v.accounts, cards: v.cards.take(j - 1) };
        let s = v.cards[j - 1];
        assert(t.last() == s);
        assert(has_account(v, s.account_id));
        assert(has_account(prev, s.account_id));
        assert(ensure_account(prev, s.account_id) == prev);
        assert(!has_card(prev, s.account_id, s.card_id)) by {
            if has_card(prev, s.account_id, s.card_id) {
                let k = choose|k: int|
                    0 <= k < prev.cards.len() && prev.cards[k].account_id == s.account_id
                        && prev.cards[k].card_id == s.card_id;
                assert(v.cards[k].account_id == s.account_id && v.cards[k].card_id == s.card_id);
            }
        }
        let e = ensure_card(prev, s.account_id, s.card_id);
        let k = card_index(e, s.account_id, s.card_id);
        assert(e.cards[j - 1].account_id == s.account_id && e.cards[j - 1].card_id == s.card_id);
        if k != j - 1 {
            assert(e.cards[k] == v.cards[k]);
        }
        assert(e.cards.update(j - 1, s) =~= t);
        assert(replace_cards(base, t) =~= LedgerView { accounts: v.accounts, cards: t });
    }
}

} // verus!

verus! {

/// The message that starts a query of the account (a bill when `bill`)
/// expecting `num_cards` card reports.
pub open spec fn query_start_msg(op_id: u32, num_cards: usize, bill: bool) -> AccountMsg {
    if bill {
        AccountMsg::StartAccountBill { op_id, num_cards }
    } else {
        AccountMsg::StartAccountQuery { op_id, num_cards }
    }
}

/// The report of card `report.0`, which consumed `report.1`, for query `op_id`.
pub open spec fn report_msg(op_id: u32, report: (u64, i64)) -> AccountMsg {
    AccountMsg::CardQueryReply { op_id, card_id: report.0, consumed: report.1 }
}

/// After the start and `k` of the reports, the query is pending with the
/// reports so far and nothing was sent.
proof fn lemma_reports_prefix(
    start: AccountActor,
    outs0: Seq<AccountOutput>,
    states: Seq<AccountActor>,
    outs: Seq<Seq<AccountOutput>>,
    op_id: u32,
    bill: bool,
    reports: Seq<(u64, i64)>,
    k: int,
)
    requires
        0 <= k < reports.len() <= usize::MAX,
        states.len() == reports.len() + 1,
        outs.len() == reports.len(),
        start.handle_step(query_start_msg(op_id, reports.len() as usize, bill), states[0], outs0),
        forall|i: int|
            0 <= i < reports.len() ==> states[i].handle_step(
                report_msg(op_id, reports[i]),
                states[i + 1],
                #[trigger] outs[i],
            ),
    ensures
        outs0.len() == 0,
        is_pending(
            states[k].pending_query,
            op_id,
            (reports.len() - k) as usize,
            reports.take(k),
            bill,
        ),
        states[k].account_id == start.account_id,
        states[k].account_limit == start.account_limit,
        states[k].account_consumed == start.account_consumed,
        forall|i: int| 0 <= i < k ==> #[trigger] outs[i].len() == 0,
    decreases k,
{
    if k == 0 {
        assert(reports.take(0) =~= Seq::<(u64, i64)>::empty());
    } else {
        lemma_reports_prefix(start, outs0, states, outs, op_id, bill, reports, k - 1);
        let i = k - 1;
        assert(states[i].handle_step(report_msg(op_id, reports[i]), states[i + 1], outs[i]));
        assert(reports.take(i).push(reports[i]) =~= reports.take(k));
    }
}

/// Collecting a query (or, when `bill`, a bill) over its reports: after
/// the start, the account sends nothing until the last expected report;
/// that report makes it send exactly one answer, with the total and the
/// per-card figures of all reports in arrival order. Afterwards no query
/// is pending, the limit is unchanged, and a bill has cleared the account's
/// consumption while a query has left it as it was.
pub proof fn lemma_account_collects_reports(
    start: AccountActor,
    outs0: Seq<AccountOutput>,
    states: Seq<AccountActor>,
    outs: Seq<Seq<AccountOutput>>,
    op_id: u32,
    bill: bool,
    reports: Seq<(u64, i64)>,
)
    requires
        1 <= reports.len() <= usize::MAX,
        states.len() == reports.len() + 1,
        outs.len() == reports.len(),
        start.handle_step(query_start_msg(op_id, reports.len() as usize, bill), states[0], outs0),
        forall|i: int|
            0 <= i < reports.len() ==> states[i].handle_step(
                report_msg(op_id, reports[i]),
                states[i + 1],
                #[trigger] outs[i],
            ),
    ensures
        outs0.len() == 0,
        forall|i: int| 0 <= i < reports.len() - 1 ==> #[trigger] outs[i].len() == 0,
        outs[reports.len() - 1].len() == 1,
        is_query_report(
            outs[reports.len() - 1][0],
            op_id,
            start.account_id,
            sat_sum(reports),
            reports,
        ),
        states[reports.len() as int].pending_query is None,
        states[reports.len() as int].account_limit == start.account_limit,
        states[reports.len() as int].account_consumed == if bill {
            0
        } else {
            start.account_consumed
        },
{
    let last = reports.len() - 1;
    lemma_reports_prefix(start, outs0, states, outs, op_id, bill, reports, last);
    assert(states[last].handle_step(report_msg(op_id, reports[last]), states[last + 1], outs[last]));
    assert(reports.take(last).push(reports[last]) =~= reports);
}

} // verus!
