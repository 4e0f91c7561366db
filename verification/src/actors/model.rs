//! What the actor world computes, stated over plain sequences of account and
//! card states. Accounts are identified by their id, cards by the pair
//! `(account_id, card_id)`; both lists keep creation order.

use vstd::prelude::*;

use crate::address::NodeAddr;
use crate::errors::{LimitCheckError, LimitUpdateError, VerifyError};
use crate::operation::{
    limit_allows, sat, sat_sum, within_limit, AccountSnapshot, CardSnapshot, ChargeResult,
    LimitResult, Operation,
};

verus! {

/// The business state: every account and every card, in creation order.
#[verifier::ext_equal]
pub struct LedgerView {
    pub accounts: Seq<AccountSnapshot>,
    pub cards: Seq<CardSnapshot>,
}

/// The result of an operation, with sequences in place of vectors.
pub enum ResultView {
    Charge(ChargeResult),
    LimitAccount(LimitResult),
    LimitCard(LimitResult),
    AccountQuery { account_id: u64, total_spent: i64, per_card_spent: Seq<(u64, i64)> },
    DatabaseSnapshot { addr: NodeAddr, accounts: Seq<AccountSnapshot>, cards: Seq<CardSnapshot> },
    ReplaceDatabase,
}

/// The empty state.
pub open spec fn empty_ledger() -> LedgerView {
    LedgerView { accounts: Seq::empty(), cards: Seq::empty() }
}

/// Whether `v` holds an account with this id.
pub open spec fn has_account(v: LedgerView, account_id: u64) -> bool {
    exists|i: int| 0 <= i < v.accounts.len() && v.accounts[i].account_id == account_id
}

/// Whether `v` holds this card.
pub open spec fn has_card(v: LedgerView, account_id: u64, card_id: u64) -> bool {
    exists|i: int|
        0 <= i < v.cards.len() && v.cards[i].account_id == account_id && v.cards[i].card_id
            == card_id
}

/// The position of an account.
pub open spec fn account_index(v: LedgerView, account_id: u64) -> int {
    choose|i: int| 0 <= i < v.accounts.len() && v.accounts[i].account_id == account_id
}

/// The position of a card.
pub open spec fn card_index(v: LedgerView, account_id: u64, card_id: u64) -> int {
    choose|i: int|
        0 <= i < v.cards.len() && v.cards[i].account_id == account_id && v.cards[i].card_id
            == card_id
}

/// No two accounts share an id, no two cards share a key, and every card's
/// account exists.
pub open spec fn ledger_wf(v: LedgerView) -> bool {
    &&& forall|i: int, j: int|
        0 <= i < v.accounts.len() && 0 <= j < v.accounts.len() && i != j
            ==> v.accounts[i].account_id != v.accounts[j].account_id
    &&& forall|i: int, j: int|
        0 <= i < v.cards.len() && 0 <= j < v.cards.len() && i != j ==> !(v.cards[i].account_id
            == v.cards[j].account_id && v.cards[i].card_id == v.cards[j].card_id)
    &&& forall|i: int| 0 <= i < v.cards.len() ==> has_account(v, #[trigger] v.cards[i].account_id)
}

/// A new account: no limit, nothing consumed.
pub open spec fn fresh_account(account_id: u64) -> AccountSnapshot {
    AccountSnapshot { account_id, limit: None, consumed: 0 }
}

/// A new card: no limit, nothing consumed.
pub open spec fn fresh_card(account_id: u64, card_id: u64) -> CardSnapshot {
    CardSnapshot { account_id, card_id, limit: None, consumed: 0 }
}

/// `v` with the account created if it was missing.
pub open spec fn ensure_account(v: LedgerView, account_id: u64) -> LedgerView {
    if has_account(v, account_id) {
        v
    } else {
        LedgerView { accounts: v.accounts.push(fresh_account(account_id)), cards: v.cards }
    }
}

/// `v` with the card, and its account, created if they were missing.
pub open spec fn ensure_card(v: LedgerView, account_id: u64, card_id: u64) -> LedgerView {
    let v1 = ensure_account(v, account_id);
    if has_card(v1, account_id, card_id) {
        v1
    } else {
        LedgerView { accounts: v1.accounts, cards: v1.cards.push(fresh_card(account_id, card_id)) }
    }
}

/// The state and result of a charge.
pub open spec fn spec_charge(
    v: LedgerView,
    account_id: u64,
    card_id: u64,
    amount: i64,
    from_offline_station: bool,
) -> (LedgerView, ResultView) {
    let v1 = ensure_card(v, account_id, card_id);
    let ci = card_index(v1, account_id, card_id);
    let ai = account_index(v1, account_id);
    let card = v1.cards[ci];
    let acc = v1.accounts[ai];
    if !from_offline_station && !within_limit(card.limit, card.consumed, amount) {
        (
            v1,
            ResultView::Charge(
                ChargeResult::Failed(VerifyError::ChargeLimit(LimitCheckError::CardLimitExceeded)),
            ),
        )
    } else if !from_offline_station && !within_limit(acc.limit, acc.consumed, amount) {
        (
            v1,
            ResultView::Charge(
                ChargeResult::Failed(VerifyError::ChargeLimit(LimitCheckError::AccountLimitExceeded)),
            ),
        )
    } else {
        (
            LedgerView {
                accounts: v1.accounts.update(
                    ai,
                    AccountSnapshot { consumed: sat(acc.consumed + amount), ..acc },
                ),
                cards: v1.cards.update(ci, CardSnapshot { consumed: sat(card.consumed + amount), ..card }),
            },
            ResultView::Charge(ChargeResult::Accepted),
        )
    }
}

/// The error of a limit below the consumption.
pub open spec fn below_usage() -> VerifyError {
    VerifyError::LimitUpdate(LimitUpdateError::BelowCurrentUsage)
}

/// The state and result of an account-limit change.
pub open spec fn spec_limit_account(v: LedgerView, account_id: u64, new_limit: Option<i64>) -> (
    LedgerView,
    ResultView,
) {
    let v1 = ensure_account(v, account_id);
    let ai = account_index(v1, account_id);
    let acc = v1.accounts[ai];
    if limit_allows(new_limit, acc.consumed) {
        (
            LedgerView {
                accounts: v1.accounts.update(ai, AccountSnapshot { limit: new_limit, ..acc }),
                cards: v1.cards,
            },
            ResultView::LimitAccount(LimitResult::Accepted),
        )
    } else {
        (v1, ResultView::LimitAccount(LimitResult::Failed(below_usage())))
    }
}

/// The state and result of a card-limit change.
pub open spec fn spec_limit_card(
    v: LedgerView,
    account_id: u64,
    card_id: u64,
    new_limit: Option<i64>,
) -> (LedgerView, ResultView) {
    let v1 = ensure_card(v, account_id, card_id);
    let ci = card_index(v1, account_id, card_id);
    let card = v1.cards[ci];
    if limit_allows(new_limit, card.consumed) {
        (
            LedgerView {
                accounts: v1.accounts,
                cards: v1.cards.update(ci, CardSnapshot { limit: new_limit, ..card }),
            },
            ResultView::LimitCard(LimitResult::Accepted),
        )
    } else {
        (v1, ResultView::LimitCard(LimitResult::Failed(below_usage())))
    }
}

/// `(card_id, consumed)` of the account's cards, in creation order.
pub open spec fn cards_of(cards: Seq<CardSnapshot>, account_id: u64) -> Seq<(u64, i64)>
    decreases cards.len(),
{
    if cards.len() == 0 {
        Seq::empty()
    } else {
        let r = cards_of(cards.drop_last(), account_id);
        if cards.last().account_id == account_id {
            r.push((cards.last().card_id, cards.last().consumed))
        } else {
            r
        }
    }
}

/// The cards with the account's cards' consumption reset to zero.
pub open spec fn reset_cards(cards: Seq<CardSnapshot>, account_id: u64) -> Seq<CardSnapshot> {
    cards.map_values(
        |c: CardSnapshot|
            if c.account_id == account_id {
                CardSnapshot { consumed: 0, ..c }
            } else {
                c
            },
    )
}

/// The total reported by a query: the sum of the cards' consumption, or the
/// account's own consumption when it has no card.
pub open spec fn query_total(acc: AccountSnapshot, per_card: Seq<(u64, i64)>) -> i64 {
    if per_card.len() == 0 {
        acc.consumed
    } else {
        sat_sum(per_card)
    }
}

/// The state and result of an account query (`reset == false`) or bill
/// (`reset == true`).
pub open spec fn spec_query(v: LedgerView, account_id: u64, reset: bool) -> (LedgerView, ResultView) {
    let v1 = ensure_account(v, account_id);
    let ai = account_index(v1, account_id);
    let acc = v1.accounts[ai];
    let per = cards_of(v1.cards, account_id);
    let result = ResultView::AccountQuery {
        account_id,
        total_spent: query_total(acc, per),
        per_card_spent: per,
    };
    if reset {
        (
            LedgerView {
                accounts: v1.accounts.update(ai, AccountSnapshot { consumed: 0, ..acc }),
                cards: reset_cards(v1.cards, account_id),
            },
            result,
        )
    } else {
        (v1, result)
    }
}

/// `v` with the account set to `s`, created first if missing.
pub open spec fn set_account(v: LedgerView, s: AccountSnapshot) -> LedgerView {
    let v1 = ensure_account(v, s.account_id);
    LedgerView {
        accounts: v1.accounts.update(account_index(v1, s.account_id), s),
        cards: v1.cards,
    }
}

/// `v` with the card set to `s`, created (with its account) first if missing.
pub open spec fn set_card(v: LedgerView, s: CardSnapshot) -> LedgerView {
    let v1 = ensure_card(v, s.account_id, s.card_id);
    LedgerView {
        accounts: v1.accounts,
        cards: v1.cards.update(card_index(v1, s.account_id, s.card_id), s),
    }
}

/// `v` with each account snapshot applied in order.
pub open spec fn replace_accounts(v: LedgerView, accs: Seq<AccountSnapshot>) -> LedgerView
    decreases accs.len(),
{
    if accs.len() == 0 {
        v
    } else {
        set_account(replace_accounts(v, accs.drop_last()), accs.last())
    }
}

/// `v` with each card snapshot applied in order.
pub open spec fn replace_cards(v: LedgerView, cards: Seq<CardSnapshot>) -> LedgerView
    decreases cards.len(),
{
    if cards.len() == 0 {
        v
    } else {
        set_card(replace_cards(v, cards.drop_last()), cards.last())
    }
}

/// `v` with a database snapshot applied: accounts first, then cards.
pub open spec fn spec_replace(
    v: LedgerView,
    accs: Seq<AccountSnapshot>,
    cards: Seq<CardSnapshot>,
) -> LedgerView {
    replace_cards(replace_accounts(v, accs), cards)
}

/// The state and result of an operation.
pub open spec fn spec_execute(v: LedgerView, op: Operation) -> (LedgerView, ResultView) {
    match op {
        Operation::Charge { account_id, card_id, amount, from_offline_station } => spec_charge(
            v,
            account_id,
            card_id,
            amount,
            from_offline_station,
        ),
        Operation::LimitAccount { account_id, new_limit } => spec_limit_account(
            v,
            account_id,
            new_limit,
        ),
        Operation::LimitCard { account_id, card_id, new_limit } => spec_limit_card(
            v,
            account_id,
            card_id,
            new_limit,
        ),
        Operation::AccountQuery { account_id } => spec_query(v, account_id, false),
        Operation::Bill { account_id, .. } => spec_query(v, account_id, true),
        Operation::GetDatabase { addr } => (
            v,
            ResultView::DatabaseSnapshot { addr, accounts: v.accounts, cards: v.cards },
        ),
        Operation::ReplaceDatabase { snapshot } => (
            spec_replace(v, snapshot.accounts@, snapshot.cards@),
            ResultView::ReplaceDatabase,
        ),
    }
}

} // verus!

verus! {

/// One more card in the prefix adds its entry when it belongs to the account.
pub proof fn lemma_cards_of_step(s: Seq<CardSnapshot>, j: int, account_id: u64)
    requires
        0 <= j < s.len(),
    ensures
        cards_of(s.take(j + 1), account_id) == if s[j].account_id == account_id {
            cards_of(s.take(j), account_id).push((s[j].card_id, s[j].consumed))
        } else {
            cards_of(s.take(j), account_id)
        },
{
    assert(s.take(j + 1).drop_last() =~= s.take(j));
    assert(s.take(j + 1).last() == s[j]);
}

/// The entries of a prefix never outnumber those of a longer prefix.
pub proof fn lemma_cards_of_len_mono(s: Seq<CardSnapshot>, k: int, m: int, account_id: u64)
    requires
        0 <= k <= m <= s.len(),
    ensures
        cards_of(s.take(k), account_id).len() <= cards_of(s.take(m), account_id).len(),
    decreases m - k,
{
    if k < m {
        lemma_cards_of_step(s, m - 1, account_id);
        lemma_cards_of_len_mono(s, k, m - 1, account_id);
    }
}

/// An account without entries owns no card.
pub proof fn lemma_cards_of_empty(s: Seq<CardSnapshot>, account_id: u64)
    requires
        cards_of(s, account_id).len() == 0,
    ensures
        forall|k: int| 0 <= k < s.len() ==> (#[trigger] s[k]).account_id != account_id,
        reset_cards(s, account_id) == s,
    decreases s.len(),
{
    if s.len() > 0 {
        let r = cards_of(s.drop_last(), account_id);
        if s.last().account_id == account_id {
            assert(cards_of(s, account_id).len() == r.len() + 1);
        }
        lemma_cards_of_empty(s.drop_last(), account_id);
        assert forall|k: int| 0 <= k < s.len() implies (#[trigger] s[k]).account_id != account_id by {
            if k < s.len() - 1 {
                assert(s.drop_last()[k] == s[k]);
            }
        }
    }
    assert(reset_cards(s, account_id) =~= s);
}

/// The whole sequence is its longest prefix.
pub proof fn lemma_take_all<T>(s: Seq<T>)
    ensures
        s.take(s.len() as int) == s,
{
    assert(s.take(s.len() as int) =~= s);
}

} // verus!

verus! {

/// An account never has more entries than there are cards.
pub proof fn lemma_cards_of_len_bounded(s: Seq<CardSnapshot>, account_id: u64)
    ensures
        cards_of(s, account_id).len() <= s.len(),
    decreases s.len(),
{
    if s.len() > 0 {
        lemma_cards_of_len_bounded(s.drop_last(), account_id);
    }
}

} // verus!

verus! {

/// When a prefix already has all of an account's entries, the longer prefix
/// has the same entries.
pub proof fn lemma_cards_of_saturated(s: Seq<CardSnapshot>, k: int, m: int, account_id: u64)
    requires
        0 <= k <= m <= s.len(),
        cards_of(s.take(k), account_id).len() == cards_of(s.take(m), account_id).len(),
    ensures
        cards_of(s.take(k), account_id) == cards_of(s.take(m), account_id),
    decreases m - k,
{
    if k < m {
        lemma_cards_of_step(s, m - 1, account_id);
        lemma_cards_of_len_mono(s, k, m - 1, account_id);
        lemma_cards_of_saturated(s, k, m - 1, account_id);
    }
}

} // verus!

verus! {

/// Whether two states hold the same accounts and cards, in the same order,
/// whatever their limits and consumption.
pub open spec fn same_keys(v: LedgerView, w: LedgerView) -> bool {
    &&& v.accounts.len() == w.accounts.len()
    &&& v.cards.len() == w.cards.len()
    &&& forall|i: int|
        #![trigger w.accounts[i]]
        0 <= i < v.accounts.len() ==> w.accounts[i].account_id == v.accounts[i].account_id
    &&& forall|i: int|
        #![trigger w.cards[i]]
        0 <= i < v.cards.len() ==> w.cards[i].account_id == v.cards[i].account_id
            && w.cards[i].card_id == v.cards[i].card_id
}

/// Well-formedness only depends on the keys.
pub proof fn lemma_wf_same_keys(v: LedgerView, w: LedgerView)
    requires
        ledger_wf(v),
        same_keys(v, w),
    ensures
        ledger_wf(w),
        forall|a: u64| has_account(v, a) == has_account(w, a),
        forall|a: u64, c: u64| has_card(v, a, c) == has_card(w, a, c),
        forall|a: u64| has_account(v, a) ==> account_index(v, a) == account_index(w, a),
        forall|a: u64, c: u64| has_card(v, a, c) ==> card_index(v, a, c) == card_index(w, a, c),
{
    assert forall|a: u64| has_account(v, a) == has_account(w, a) by {
        if has_account(v, a) {
            let k = choose|k: int| 0 <= k < v.accounts.len() && v.accounts[k].account_id == a;
            assert(w.accounts[k].account_id == a);
        }
        if has_account(w, a) {
            let k = choose|k: int| 0 <= k < w.accounts.len() && w.accounts[k].account_id == a;
            assert(w.accounts[k].account_id == v.accounts[k].account_id);
        }
    }
    assert forall|a: u64, c: u64| has_card(v, a, c) == has_card(w, a, c) by {
        if has_card(v, a, c) {
            let k = choose|k: int|
                0 <= k < v.cards.len() && v.cards[k].account_id == a && v.cards[k].card_id == c;
            assert(w.cards[k].account_id == a && w.cards[k].card_id == c);
        }
        if has_card(w, a, c) {
            let k = choose|k: int|
                0 <= k < w.cards.len() && w.cards[k].account_id == a && w.cards[k].card_id == c;
            assert(w.cards[k].account_id == v.cards[k].account_id);
        }
    }
    assert forall|i: int| 0 <= i < w.cards.len() implies has_account(w, #[trigger] w.cards[i].account_id) by {
        assert(w.cards[i].account_id == v.cards[i].account_id);
        assert(has_account(v, v.cards[i].account_id));
    }
    assert forall|i: int, j: int|
        0 <= i < w.accounts.len() && 0 <= j < w.accounts.len() && i != j implies w.accounts[i].account_id
        != w.accounts[j].account_id by {
        assert(w.accounts[i].account_id == v.accounts[i].account_id);
        assert(w.accounts[j].account_id == v.accounts[j].account_id);
    }
    assert forall|i: int, j: int|
        0 <= i < w.cards.len() && 0 <= j < w.cards.len() && i != j implies !(w.cards[i].account_id
        == w.cards[j].account_id && w.cards[i].card_id == w.cards[j].card_id) by {
        assert(w.cards[i].account_id == v.cards[i].account_id);
        assert(w.cards[j].account_id == v.cards[j].account_id);
    }
    assert forall|a: u64| has_account(v, a) implies account_index(v, a) == account_index(w, a) by {
        let k = account_index(v, a);
        let k2 = account_index(w, a);
        assert(w.accounts[k2].account_id == a);
        assert(v.accounts[k2].account_id == a);
        if k != k2 {
            assert(v.accounts[k].account_id != v.accounts[k2].account_id);
        }
    }
    assert forall|a: u64, c: u64| has_card(v, a, c) implies card_index(v, a, c) == card_index(
        w,
        a,
        c,
    ) by {
        let k = card_index(v, a, c);
        let k2 = card_index(w, a, c);
        assert(w.cards[k2].account_id == a && w.cards[k2].card_id == c);
        assert(v.cards[k2].account_id == a && v.cards[k2].card_id == c);
        if k != k2 {
            assert(!(v.cards[k].account_id == v.cards[k2].account_id && v.cards[k].card_id
                == v.cards[k2].card_id));
        }
    }
}

/// Creating a missing account makes it exist, at a valid position.
pub proof fn lemma_ensure_account(v: LedgerView, a: u64)
    ensures
        has_account(ensure_account(v, a), a),
        0 <= account_index(ensure_account(v, a), a) < ensure_account(v, a).accounts.len(),
        ensure_account(v, a).accounts[account_index(ensure_account(v, a), a)].account_id == a,
        ledger_wf(v) ==> ledger_wf(ensure_account(v, a)),
        ensure_account(v, a).cards == v.cards,
        forall|i: int| 0 <= i < v.accounts.len() ==> #[trigger] ensure_account(v, a).accounts[i] == v.accounts[i],
{
    let w = ensure_account(v, a);
    if !has_account(v, a) {
        assert(w.accounts[v.accounts.len() as int].account_id == a);
    }
    let k = account_index(w, a);
    assert(w.accounts[k].account_id == a);
    if ledger_wf(v) && !has_account(v, a) {
        assert forall|i: int, j: int|
            0 <= i < w.accounts.len() && 0 <= j < w.accounts.len() && i != j implies w.accounts[i].account_id
            != w.accounts[j].account_id by {
            if i == v.accounts.len() {
                assert(v.accounts[j].account_id != a);
            } else if j == v.accounts.len() {
                assert(v.accounts[i].account_id != a);
            }
        }
        assert forall|i: int| 0 <= i < w.cards.len() implies has_account(w, #[trigger] w.cards[i].account_id) by {
            let q = choose|q: int| 0 <= q < v.accounts.len() && v.accounts[q].account_id == v.cards[i].account_id;
            assert(w.accounts[q] == v.accounts[q]);
        }
    }
}

/// Creating a missing card (and its account) makes both exist, at valid positions.
pub proof fn lemma_ensure_card(v: LedgerView, a: u64, c: u64)
    ensures
        has_card(ensure_card(v, a, c), a, c),
        has_account(ensure_card(v, a, c), a),
        0 <= card_index(ensure_card(v, a, c), a, c) < ensure_card(v, a, c).cards.len(),
        ensure_card(v, a, c).cards[card_index(ensure_card(v, a, c), a, c)].account_id == a,
        ensure_card(v, a, c).cards[card_index(ensure_card(v, a, c), a, c)].card_id == c,
        0 <= account_index(ensure_card(v, a, c), a) < ensure_card(v, a, c).accounts.len(),
        ensure_card(v, a, c).accounts[account_index(ensure_card(v, a, c), a)].account_id == a,
        ensure_card(v, a, c).accounts == ensure_account(v, a).accounts,
        ledger_wf(v) ==> ledger_wf(ensure_card(v, a, c)),
{
    lemma_ensure_account(v, a);
    let v1 = ensure_account(v, a);
    let w = ensure_card(v, a, c);
    if !has_card(v1, a, c) {
        assert(w.cards[v1.cards.len() as int].account_id == a);
        assert(w.cards[v1.cards.len() as int].card_id == c);
    }
    let k = card_index(w, a, c);
    assert(w.cards[k].account_id == a && w.cards[k].card_id == c);
    assert(w.accounts == v1.accounts);
    assert(has_account(w, a));
    let ka = account_index(w, a);
    assert(w.accounts[ka].account_id == a);
    if ledger_wf(v) && !has_card(v1, a, c) {
        assert forall|i: int, j: int|
            0 <= i < w.cards.len() && 0 <= j < w.cards.len() && i != j implies !(w.cards[i].account_id
            == w.cards[j].account_id && w.cards[i].card_id == w.cards[j].card_id) by {
            if i == v1.cards.len() {
                assert(!(v1.cards[j].account_id == a && v1.cards[j].card_id == c));
            } else if j == v1.cards.len() {
                assert(!(v1.cards[i].account_id == a && v1.cards[i].card_id == c));
            }
        }
        assert forall|i: int| 0 <= i < w.cards.len() implies has_account(w, #[trigger] w.cards[i].account_id) by {
            if i < v1.cards.len() {
                assert(w.cards[i] == v1.cards[i]);
                assert(has_account(v1, v1.cards[i].account_id));
            }
        }
    }
}

} // verus!
