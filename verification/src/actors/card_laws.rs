//! Laws of a card over a sequence of inputs: its tasks run one at a time and
//! complete in the order in which they arrived.

use vstd::prelude::*;

use super::card::{
    below_usage_error, card_limit_error, spec_drain, CardActor, CardChargeOp, CardOutput, CardTask,
};
use super::messages::{completed, AccountChargeReply, CardMsg, RouterInternalMsg};
use crate::operation::{limit_allows, within_limit};

verus! {

/// An input of a card: a message from the router or its account's answer.
pub enum CardInput {
    Router(CardMsg),
    Account(AccountChargeReply),
}

/// One step of a card on an input.
pub open spec fn card_input_step(
    pre: CardActor,
    input: CardInput,
    post: CardActor,
    outs: Seq<CardOutput>,
) -> bool {
    match input {
        CardInput::Router(msg) => pre.handle_step(msg, post, outs),
        CardInput::Account(reply) => pre.reply_step(reply, post, outs),
    }
}

/// Whether an input keeps to the card's ordinary work: its state is not
/// replaced, and a charge names this card and its account.
pub open spec fn regular_input(card_id: u64, account_id: u64, input: CardInput) -> bool {
    match input {
        CardInput::Router(CardMsg::ReplaceState { .. }) => false,
        CardInput::Router(CardMsg::ExecuteCharge { account_id: a, card_id: c, .. }) => a
            == account_id && c == card_id,
        _ => true,
    }
}

/// The task an input hands to the card, if any.
pub open spec fn input_task(input: CardInput) -> Option<CardTask> {
    match input {
        CardInput::Router(
            CardMsg::ExecuteCharge { op_id, account_id, amount, from_offline_station, .. },
        ) => Some(CardTask::Charge(CardChargeOp { op_id, account_id, amount, from_offline_station })),
        CardInput::Router(CardMsg::ExecuteLimitChange { op_id, new_limit }) => Some(
            CardTask::LimitChange { op_id, new_limit },
        ),
        _ => None,
    }
}

/// The tasks handed to the card by a sequence of inputs, in arrival order.
pub open spec fn arrived_tasks(inputs: Seq<CardInput>) -> Seq<CardTask>
    decreases inputs.len(),
{
    if inputs.len() == 0 {
        Seq::empty()
    } else {
        let r = arrived_tasks(inputs.drop_last());
        match input_task(inputs.last()) {
            Some(t) => r.push(t),
            None => r,
        }
    }
}

/// The operation id of a task.
pub open spec fn task_id(t: CardTask) -> u32 {
    match t {
        CardTask::Charge(op) => op.op_id,
        CardTask::LimitChange { op_id, .. } => op_id,
    }
}

/// The operation ids of tasks.
pub open spec fn task_ids(ts: Seq<CardTask>) -> Seq<u32> {
    ts.map_values(|t: CardTask| task_id(t))
}

/// The ids of the operations whose completion the outputs report to the
/// router, in order.
pub open spec fn completions(outs: Seq<CardOutput>) -> Seq<u32>
    decreases outs.len(),
{
    if outs.len() == 0 {
        Seq::empty()
    } else {
        let r = completions(outs.drop_last());
        match outs.last() {
            CardOutput::ToRouter(RouterInternalMsg::OperationCompleted { op_id, .. }) => r.push(
                op_id,
            ),
            _ => r,
        }
    }
}

/// The outputs of a sequence of steps, one after the other.
pub open spec fn all_outputs(outs: Seq<Seq<CardOutput>>) -> Seq<CardOutput>
    decreases outs.len(),
{
    if outs.len() == 0 {
        Seq::empty()
    } else {
        all_outputs(outs.drop_last()) + outs.last()
    }
}

/// The current task followed by the queued ones.
pub open spec fn tasks_in_flight(current: Option<CardTask>, queue: Seq<CardTask>) -> Seq<CardTask> {
    match current {
        Some(t) => seq![t] + queue,
        None => queue,
    }
}

/// The tasks of a card that have not completed: the current one, then the
/// queue.
pub open spec fn in_flight(card: CardActor) -> Seq<CardTask> {
    tasks_in_flight(card.current_task, card.queue@)
}

/// The completions of two runs of outputs are those of the first, then
/// those of the second.
pub proof fn lemma_completions_concat(a: Seq<CardOutput>, b: Seq<CardOutput>)
    ensures
        completions(a + b) == completions(a) + completions(b),
    decreases b.len(),
{
    if b.len() == 0 {
        assert(a + b =~= a);
        assert(completions(a) + completions(b) =~= completions(a));
    } else {
        lemma_completions_concat(a, b.drop_last());
        assert((a + b).drop_last() =~= a + b.drop_last());
        assert((a + b).last() == b.last());
        match b.last() {
            CardOutput::ToRouter(RouterInternalMsg::OperationCompleted { op_id, .. }) => {
                assert(completions(a) + completions(b) =~= (completions(a) + completions(
                    b.drop_last(),
                )).push(op_id));
            },
            _ => {},
        }
    }
}

/// Running the queue completes a prefix of it, in order, and leaves the
/// rest in flight.
pub proof fn lemma_drain_in_order(card_id: u64, limit: Option<i64>, consumed: i64, q: Seq<CardTask>)
    ensures
        ({
            let (l2, cur, q2, o) = spec_drain(card_id, limit, consumed, q);
            let f = tasks_in_flight(cur, q2);
            let j = q.len() - f.len();
            &&& f.len() <= q.len()
            &&& f == q.subrange(j, q.len() as int)
            &&& completions(o) == task_ids(q.take(j))
            &&& cur is None ==> q2.len() == 0
        }),
    decreases q.len(),
{
    if q.len() == 0 {
        assert(completions(Seq::<CardOutput>::empty()) =~= Seq::<u32>::empty());
        assert(task_ids(q.take(0)) =~= Seq::<u32>::empty());
        assert(q.subrange(0, 0) =~= q);
    } else {
        let t = q[0];
        let rest = q.subrange(1, q.len() as int);
        lemma_drain_in_order(card_id, limit, consumed, rest);
        match t {
            CardTask::LimitChange { op_id, new_limit } => {
                lemma_drain_in_order(card_id, new_limit, consumed, rest);
            },
            _ => {},
        }
        let (l2, cur, q2, o) = spec_drain(card_id, limit, consumed, q);
        let f = tasks_in_flight(cur, q2);
        let j = q.len() - f.len();
        // the completion the first task reports at once, and the limit the
        // rest of the queue runs with, when it does not wait
        let (done_now, x, lim) = match t {
            CardTask::Charge(op) => (
                !op.from_offline_station && !within_limit(limit, consumed, op.amount),
                CardOutput::ToRouter(completed(op.op_id, false, card_limit_error())),
                limit,
            ),
            CardTask::LimitChange { op_id, new_limit } => if limit_allows(new_limit, consumed) {
                (true, CardOutput::ToRouter(completed(op_id, true, None)), new_limit)
            } else {
                (true, CardOutput::ToRouter(completed(op_id, false, below_usage_error())), limit)
            },
        };
        if !done_now {
            assert(cur == Some(t) && q2 == rest);
            assert(q =~= seq![t] + rest);
            assert(f =~= q);
            assert(o.drop_last() =~= Seq::<CardOutput>::empty());
            assert(completions(o.drop_last()) =~= Seq::<u32>::empty());
            assert(o.last() is ToAccount);
            assert(task_ids(q.take(0)) =~= Seq::<u32>::empty());
            assert(q.subrange(0, q.len() as int) =~= q);
        } else {
            let (l3, cur3, q3, o3) = spec_drain(card_id, lim, consumed, rest);
            assert(cur == cur3 && q2 == q3);
            assert(o == seq![x] + o3);
            lemma_completions_concat(seq![x], o3);
            let e = seq![x].drop_last();
            assert(e =~= Seq::<CardOutput>::empty());
            assert(completions(e) =~= Seq::<u32>::empty());
            assert(seq![x].last() == x);
            assert(completions(seq![x]) =~= seq![task_id(t)]);
            let j3 = rest.len() - f.len();
            assert(j == j3 + 1);
            assert(rest.subrange(j3, rest.len() as int) =~= q.subrange(j, q.len() as int));
            assert(q.take(j) =~= seq![t] + rest.take(j3));
            assert(task_ids(q.take(j)) =~= seq![task_id(t)] + task_ids(rest.take(j3)));
        }
    }
}

/// Whether the tasks that arrived at a card are those it completed, in
/// arrival order with these ids, followed by those still in flight.
pub open spec fn runs_in_order(card: CardActor, arrived: Seq<CardTask>, done: Seq<u32>) -> bool {
    let f = in_flight(card);
    let k = arrived.len() - f.len();
    &&& card.wf()
    &&& f.len() <= arrived.len()
    &&& f == arrived.subrange(k, arrived.len() as int)
    &&& done == task_ids(arrived.take(k))
}

/// The completion a single output reports, if any.
proof fn lemma_completions_single(x: CardOutput)
    ensures
        completions(seq![x]) == match x {
            CardOutput::ToRouter(RouterInternalMsg::OperationCompleted { op_id, .. }) => seq![op_id],
            _ => Seq::<u32>::empty(),
        },
{
    let e = seq![x].drop_last();
    assert(e =~= Seq::<CardOutput>::empty());
    assert(completions(e) =~= Seq::<u32>::empty());
    assert(seq![x].last() == x);
    assert(Seq::<u32>::empty().push(0u32) =~= seq![0u32]);
    match x {
        CardOutput::ToRouter(RouterInternalMsg::OperationCompleted { op_id, .. }) => {
            assert(Seq::<u32>::empty().push(op_id) =~= seq![op_id]);
        },
        _ => {},
    }
}

/// One step keeps the tasks running in arrival order: a task handed over
/// joins the arrivals, and the completions the step reports are those of
/// the next tasks in flight.
proof fn lemma_card_step_in_order(
    pre: CardActor,
    input: CardInput,
    post: CardActor,
    outs: Seq<CardOutput>,
    arrived: Seq<CardTask>,
    done: Seq<u32>,
)
    requires
        runs_in_order(pre, arrived, done),
        regular_input(pre.card_id, pre.account_id, input),
        card_input_step(pre, input, post, outs),
    ensures
        post.card_id == pre.card_id,
        post.account_id == pre.account_id,
        runs_in_order(
            post,
            match input_task(input) {
                Some(t) => arrived.push(t),
                None => arrived,
            },
            done + completions(outs),
        ),
{
    let f = in_flight(pre);
    let k = arrived.len() - f.len();
    assert(completions(Seq::<CardOutput>::empty()) =~= Seq::<u32>::empty());
    assert(done + Seq::<u32>::empty() =~= done);
    match input_task(input) {
        Some(task) => {
            let a2 = arrived.push(task);
            if pre.current_task is None {
                // idle: the task runs at once, along with nothing queued
                assert(pre.queue@.len() == 0);
                let q = seq![task];
                lemma_drain_in_order(pre.card_id, pre.limit, pre.consumed, q);
                let (l2, cur, q2, o) = spec_drain(pre.card_id, pre.limit, pre.consumed, q);
                assert(post.current_task == cur && post.queue@ == q2 && outs == o);
                let f2 = in_flight(post);
                let j = 1 - f2.len();
                assert(k == arrived.len());
                assert(arrived.take(k) =~= arrived);
                assert(a2.take(arrived.len() + j) =~= arrived + q.take(j));
                assert(a2.subrange(arrived.len() + j, a2.len() as int) =~= q.subrange(j, 1));
                assert(task_ids(arrived + q.take(j)) =~= task_ids(arrived) + task_ids(q.take(j)));
            } else {
                // busy: the task waits behind the others
                assert(post.current_task == pre.current_task);
                assert(post.queue@ == pre.queue@.push(task));
                assert(outs.len() == 0);
                assert(outs =~= Seq::<CardOutput>::empty());
                assert(in_flight(post) =~= f.push(task));
                assert(a2.take(k) =~= arrived.take(k));
                assert(a2.subrange(k, a2.len() as int) =~= arrived.subrange(k, arrived.len() as int).push(
                    task,
                ));
            }
        },
        None => {
            match input {
                CardInput::Router(msg) => {
                    match msg {
                        CardMsg::QueryCardState { op_id, account_id, reset_after_report } => {
                            if account_id != pre.account_id {
                                assert(outs =~= Seq::<CardOutput>::empty());
                            } else {
                                lemma_completions_single(outs[0]);
                                assert(outs =~= seq![outs[0]]);
                                assert(in_flight(post) =~= f);
                            }
                        },
                        CardMsg::GetSnapshot { op_id } => {
                            lemma_completions_single(outs[0]);
                            assert(outs =~= seq![outs[0]]);
                        },
                        _ => {},
                    }
                },
                CardInput::Account(reply) => {
                    match pre.current_task {
                        Some(CardTask::Charge(op)) => {
                            if op.op_id == reply.op_id {
                                let consumed = if reply.success {
                                    crate::operation::sat(pre.consumed + op.amount)
                                } else {
                                    pre.consumed
                                };
                                let q = pre.queue@;
                                lemma_drain_in_order(pre.card_id, pre.limit, consumed, q);
                                let (l2, cur, q2, o) = spec_drain(pre.card_id, pre.limit, consumed, q);
                                let x = CardOutput::ToRouter(
                                    completed(reply.op_id, reply.success, reply.error),
                                );
                                assert(outs == seq![x] + o);
                                lemma_completions_concat(seq![x], o);
                                lemma_completions_single(x);
                                let f2 = in_flight(post);
                                let j = q.len() - f2.len();
                                let t = CardTask::Charge(op);
                                assert(f =~= seq![t] + q);
                                assert(f[0] == t);
                                assert(arrived.subrange(k, arrived.len() as int)[0] == arrived[k]);
                                assert(arrived[k] == t);
                                assert(arrived.len() == k + 1 + q.len());
                                assert(0 <= j <= q.len());
                                assert forall|n: int| k + 1 <= n < arrived.len() implies #[trigger] arrived[n]
                                    == q[n - k - 1] by {
                                    assert(arrived.subrange(k, arrived.len() as int)[n - k] == arrived[n]);
                                    assert(f[n - k] == q[n - k - 1]);
                                }
                                assert(arrived.take(k + 1 + j) =~= arrived.take(k) + seq![t] + q.take(j));
                                assert(arrived.subrange(k + 1 + j, arrived.len() as int) =~= q.subrange(
                                    j,
                                    q.len() as int,
                                ));
                                assert(task_ids(arrived.take(k) + seq![t] + q.take(j)) =~= task_ids(
                                    arrived.take(k),
                                ) + seq![reply.op_id] + task_ids(q.take(j)));
                                assert(done + completions(outs) =~= task_ids(arrived.take(k))
                                    + seq![reply.op_id] + task_ids(q.take(j)));
                            } else {
                                assert(outs =~= Seq::<CardOutput>::empty());
                            }
                        },
                        _ => {
                            assert(outs =~= Seq::<CardOutput>::empty());
                        },
                    }
                },
            }
        },
    }
}

/// After the first `k` inputs, the tasks still run in arrival order.
proof fn lemma_card_prefix_in_order(
    states: Seq<CardActor>,
    inputs: Seq<CardInput>,
    outs: Seq<Seq<CardOutput>>,
    k: int,
)
    requires
        0 <= k <= inputs.len(),
        states.len() == inputs.len() + 1,
        outs.len() == inputs.len(),
        states[0].wf(),
        states[0].is_idle(),
        forall|i: int|
            0 <= i < inputs.len() ==> regular_input(
                states[0].card_id,
                states[0].account_id,
                #[trigger] inputs[i],
            ),
        forall|i: int|
            0 <= i < inputs.len() ==> card_input_step(
                states[i],
                inputs[i],
                states[i + 1],
                #[trigger] outs[i],
            ),
    ensures
        states[k].card_id == states[0].card_id,
        states[k].account_id == states[0].account_id,
        runs_in_order(
            states[k],
            arrived_tasks(inputs.take(k)),
            completions(all_outputs(outs.take(k))),
        ),
    decreases k,
{
    if k == 0 {
        assert(inputs.take(0) =~= Seq::<CardInput>::empty());
        assert(outs.take(0) =~= Seq::<Seq<CardOutput>>::empty());
        assert(completions(Seq::<CardOutput>::empty()) =~= Seq::<u32>::empty());
        assert(in_flight(states[0]) =~= Seq::<CardTask>::empty());
        assert(arrived_tasks(inputs.take(0)) =~= Seq::<CardTask>::empty());
        assert(Seq::<CardTask>::empty().subrange(0, 0) =~= Seq::<CardTask>::empty());
        assert(task_ids(Seq::<CardTask>::empty().take(0)) =~= Seq::<u32>::empty());
    } else {
        let i = k - 1;
        lemma_card_prefix_in_order(states, inputs, outs, i);
        assert(inputs.take(k).drop_last() =~= inputs.take(i));
        assert(inputs.take(k).last() == inputs[i]);
        assert(outs.take(k).drop_last() =~= outs.take(i));
        assert(outs.take(k).last() == outs[i]);
        assert(arrived_tasks(inputs.take(k)) == match input_task(inputs[i]) {
            Some(t) => arrived_tasks(inputs.take(i)).push(t),
            None => arrived_tasks(inputs.take(i)),
        });
        assert(all_outputs(outs.take(k)) == all_outputs(outs.take(i)) + outs[i]);
        assert(regular_input(states[0].card_id, states[0].account_id, inputs[i]));
        assert(card_input_step(states[i], inputs[i], states[i + 1], outs[i]));
        lemma_completions_concat(all_outputs(outs.take(i)), outs[i]);
        lemma_card_step_in_order(
            states[i],
            inputs[i],
            states[i + 1],
            outs[i],
            arrived_tasks(inputs.take(i)),
            completions(all_outputs(outs.take(i))),
        );
    }
}

/// Ordering at a card: when tasks reach an idle card one after the other
/// (charges for this card and its account, and limit changes), with its
/// account's answers and the other router messages in between and no
/// replacement of its state, then at every point the operations it has
/// reported completed to the router are exactly the first tasks that
/// arrived, each once and in arrival order; the others are in flight, the
/// oldest of them being the one task in progress and the rest queued in
/// arrival order. Once the card is idle again, every task has been reported
/// completed exactly once, in arrival order.
pub proof fn lemma_card_tasks_in_order(
    states: Seq<CardActor>,
    inputs: Seq<CardInput>,
    outs: Seq<Seq<CardOutput>>,
)
    requires
        states.len() == inputs.len() + 1,
        outs.len() == inputs.len(),
        states[0].wf(),
        states[0].is_idle(),
        forall|i: int|
            0 <= i < inputs.len() ==> regular_input(
                states[0].card_id,
                states[0].account_id,
                #[trigger] inputs[i],
            ),
        forall|i: int|
            0 <= i < inputs.len() ==> card_input_step(
                states[i],
                inputs[i],
                states[i + 1],
                #[trigger] outs[i],
            ),
    ensures
        ({
            let arrived = arrived_tasks(inputs);
            let done = completions(all_outputs(outs));
            let last = states[inputs.len() as int];
            &&& done.len() + in_flight(last).len() == arrived.len()
            &&& done == task_ids(arrived.take(done.len() as int))
            &&& in_flight(last) == arrived.subrange(done.len() as int, arrived.len() as int)
            &&& last.current_task is None ==> last.queue@.len() == 0
            &&& last.current_task matches Some(t) ==> t == arrived[done.len() as int]
            &&& last.is_idle() ==> done == task_ids(arrived)
        }),
{
    let n = inputs.len() as int;
    lemma_card_prefix_in_order(states, inputs, outs, n);
    assert(inputs.take(n) =~= inputs);
    assert(outs.take(n) =~= outs);
    let arrived = arrived_tasks(inputs);
    let f = in_flight(states[n]);
    let k = arrived.len() - f.len();
    assert(task_ids(arrived.take(k)).len() == k);
    if states[n].current_task is Some {
        assert(f[0] == arrived.subrange(k, arrived.len() as int)[0]);
    }
    if states[n].is_idle() {
        assert(arrived.take(k) =~= arrived);
    }
}

} // verus!
