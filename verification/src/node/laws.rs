//! Properties of the replication and election protocol over several steps.

use vstd::prelude::*;

use crate::address::NodeAddr;
use crate::node::cluster::{addrs_where, higher_than, peers_of, Pick};
use crate::node::leader::{ack_executes, Leader, PendingOperation};
use crate::node::messages::{sends_to, ActionView, MessageView, RoleChange, SendPolicy};
use crate::node::replica::Replica;
use crate::operation::Operation;

verus! {

/// With no member above `id`, there is nobody to send `Election` to.
pub proof fn lemma_none_higher(s: Seq<(u64, NodeAddr)>, id: u64)
    requires
        forall|i: int| 0 <= i < s.len() ==> #[trigger] s[i].0 <= id,
    ensures
        higher_than(s, id).len() == 0,
    decreases s.len(),
{
    if s.len() > 0 {
        assert forall|i: int| 0 <= i < s.drop_last().len() implies #[trigger] s.drop_last()[i].0
            <= id by {
            assert(s.drop_last()[i] == s[i]);
        }
        lemma_none_higher(s.drop_last(), id);
        assert(s.last() == s[s.len() - 1]);
    }
}

/// With some member above `id`, `Election` goes out.
pub proof fn lemma_some_higher(s: Seq<(u64, NodeAddr)>, id: u64, k: int)
    requires
        0 <= k < s.len(),
        s[k].0 > id,
    ensures
        higher_than(s, id).len() > 0,
    decreases s.len(),
{
    if k == s.len() - 1 {
        assert(s.last() == s[k]);
    } else {
        assert(s.drop_last()[k] == s[k]);
        lemma_some_higher(s.drop_last(), id, k);
        let r = addrs_where(s.drop_last(), Pick::IdAbove(id));
        assert(addrs_where(s, Pick::IdAbove(id)).len() >= r.len());
    }
}

/// Bully: a replica with no member above its id that starts an election
/// becomes leader at once and announces itself to every other member.
pub proof fn lemma_highest_takes_lead(r: Replica, now: u64)
    requires
        !r.election_in_progress,
        forall|i: int| 0 <= i < r.cluster@.len() ==> #[trigger] r.cluster@[i].0 <= r.id,
    ensures
        r.election_outcome(now).1 == RoleChange::PromoteToLeader,
        r.election_outcome(now).2 == r.announcement(),
        r.election_outcome(now).0 == r.with_election(false, None),
{
    lemma_none_higher(r.cluster@, r.id);
}

/// Bully: a replica that knows a member with a higher id does not take the
/// lead when it starts an election; it sends `Election` to the higher
/// members and waits.
pub proof fn lemma_higher_member_defers(r: Replica, now: u64, k: int)
    requires
        !r.election_in_progress,
        0 <= k < r.cluster@.len(),
        r.cluster@[k].0 > r.id,
    ensures
        r.election_outcome(now).1 == RoleChange::NoChange,
        r.election_outcome(now).0 == r.with_election(true, Some(now)),
        r.election_outcome(now).2 == sends_to(
            higher_than(r.cluster@, r.id),
            MessageView::Election { candidate_id: r.id, candidate_addr: r.address },
            SendPolicy::IgnoreError,
        ),
{
    lemma_some_higher(r.cluster@, r.id, k);
}

/// Bully: a leader with no member above its id that starts an election
/// ends it at once and announces itself again.
pub proof fn lemma_highest_keeps_lead(l: Leader, now: u64)
    requires
        !l.election_in_progress,
        forall|i: int| 0 <= i < l.cluster@.len() ==> #[trigger] l.cluster@[i].0 <= l.id,
    ensures
        l.election_outcome(now) == (l.with_election(false, None), l.announcement()),
{
    lemma_none_higher(l.cluster@, l.id);
}

/// The first `k` log entries, delivered in order, leave only entry `k`
/// pending, have acknowledged entry 1 and executed entries `1..k-1` in order.
proof fn lemma_log_replay_prefix(
    states: Seq<Replica>,
    ops: Seq<Operation>,
    acts: Seq<Seq<ActionView>>,
    k: int,
)
    requires
        1 <= k <= ops.len(),
        ops.len() < u32::MAX,
        states.len() == ops.len() + 1,
        acts.len() == ops.len(),
        states[0].operations@ == Map::<u32, Operation>::empty(),
        forall|i: int|
            0 <= i < ops.len() ==> states[i].log_step(
                (i + 1) as u32,
                ops[i],
                states[i + 1],
                #[trigger] acts[i],
            ),
    ensures
        states[k].operations@ == Map::<u32, Operation>::empty().insert(k as u32, ops[k - 1]),
        states[k].leader_addr == states[0].leader_addr,
        acts[0] == seq![
            ActionView::Send {
                to: states[0].leader_addr,
                msg: MessageView::Ack { op_id: 1 },
                policy: SendPolicy::Propagate,
            },
        ],
        forall|i: int|
            1 <= i < k ==> #[trigger] acts[i] == seq![
                ActionView::Execute { op_id: i as u32, operation: ops[i - 1]@ },
            ],
    decreases k,
{
    assert(states[0].log_step(1, ops[0], states[1], acts[0]));
    if k == 1 {
        assert(states[1].operations@ =~= Map::<u32, Operation>::empty().insert(1, ops[0]));
    } else {
        lemma_log_replay_prefix(states, ops, acts, k - 1);
        let i = k - 1;
        assert(states[i].log_step((i + 1) as u32, ops[i], states[i + 1], acts[i]));
        let logged = states[i].operations@.insert(k as u32, ops[i]);
        assert(logged.contains_key((k - 1) as u32));
        assert(logged[(k - 1) as u32] == ops[k - 2]);
        assert(logged.remove((k - 1) as u32) =~= Map::<u32, Operation>::empty().insert(
            k as u32,
            ops[k - 1],
        ));
    }
}

/// Replication: a replica that starts with an empty log and receives the
/// entries `1..n` in order acknowledges the first at once, and each later
/// entry `i` executes entry `i - 1`, so the replica executes the entries in
/// the leader's order, each once; the last one stays pending.
pub proof fn lemma_log_replay(states: Seq<Replica>, ops: Seq<Operation>, acts: Seq<Seq<ActionView>>)
    requires
        1 <= ops.len() < u32::MAX,
        states.len() == ops.len() + 1,
        acts.len() == ops.len(),
        states[0].operations@ == Map::<u32, Operation>::empty(),
        forall|i: int|
            0 <= i < ops.len() ==> states[i].log_step(
                (i + 1) as u32,
                ops[i],
                states[i + 1],
                #[trigger] acts[i],
            ),
    ensures
        acts[0] == seq![
            ActionView::Send {
                to: states[0].leader_addr,
                msg: MessageView::Ack { op_id: 1 },
                policy: SendPolicy::Propagate,
            },
        ],
        forall|i: int|
            1 <= i < ops.len() ==> #[trigger] acts[i] == seq![
                ActionView::Execute { op_id: i as u32, operation: ops[i - 1]@ },
            ],
        states[ops.len() as int].operations@ == Map::<u32, Operation>::empty().insert(
            ops.len() as u32,
            ops[ops.len() - 1],
        ),
{
    lemma_log_replay_prefix(states, ops, acts, ops.len() as int);
}

/// After `k` acknowledgements of a pending operation that had none, its
/// count is `k` and the `i`-th one executed it exactly when `ack_executes`.
proof fn lemma_acks_prefix(states: Seq<Leader>, op_id: u32, acts: Seq<Seq<ActionView>>, k: int)
    requires
        0 <= k <= acts.len(),
        states.len() == acts.len() + 1,
        acts.len() < usize::MAX,
        states[0].operations@.contains_key(op_id),
        states[0].operations@[op_id].ack_count == 0,
        forall|i: int|
            0 <= i < acts.len() ==> states[i].ack_step(op_id, states[i + 1], #[trigger] acts[i]),
    ensures
        states[k].cluster == states[0].cluster,
        states[k].operations@.contains_key(op_id),
        states[k].operations@[op_id] == (PendingOperation {
            ack_count: k as usize,
            ..states[0].operations@[op_id]
        }),
        forall|i: int|
            0 <= i < k ==> (ack_executes((i + 1) as nat, states[0].cluster@.len()) ==> #[trigger] acts[i]
                == seq![
                ActionView::Execute { op_id, operation: states[0].operations@[op_id].op@ },
            ]) && (!ack_executes((i + 1) as nat, states[0].cluster@.len()) ==> acts[i].len()
                == 0),
    decreases k,
{
    if k > 0 {
        lemma_acks_prefix(states, op_id, acts, k - 1);
        let i = k - 1;
        assert(states[i].ack_step(op_id, states[i + 1], acts[i]));
    }
}

/// Majority: when a pending operation with no acknowledgement receives its
/// acknowledgements one by one, the `i`-th executes it exactly when
/// `ack_executes(i, n)` holds for the cluster size `n`; that happens for one
/// acknowledgement at most (the `n / 2`-th), so the leader executes the
/// operation once.
pub proof fn lemma_ack_majority(states: Seq<Leader>, op_id: u32, acts: Seq<Seq<ActionView>>)
    requires
        states.len() == acts.len() + 1,
        acts.len() < usize::MAX,
        states[0].operations@.contains_key(op_id),
        states[0].operations@[op_id].ack_count == 0,
        forall|i: int|
            0 <= i < acts.len() ==> states[i].ack_step(op_id, states[i + 1], #[trigger] acts[i]),
    ensures
        forall|i: int|
            0 <= i < acts.len() ==> (#[trigger] acts[i].len() > 0 <==> ack_executes(
                (i + 1) as nat,
                states[0].cluster@.len(),
            )),
        forall|i: int|
            0 <= i < acts.len() && #[trigger] acts[i].len() > 0 ==> acts[i] == seq![
                ActionView::Execute { op_id, operation: states[0].operations@[op_id].op@ },
            ],
        forall|i: int, j: int|
            0 <= i < acts.len() && 0 <= j < acts.len() && #[trigger] acts[i].len() > 0
                && #[trigger] acts[j].len() > 0 ==> i == j,
        states[acts.len() as int].operations@[op_id].ack_count == acts.len(),
{
    lemma_acks_prefix(states, op_id, acts, acts.len() as int);
    assert forall|i: int|
        0 <= i < acts.len() implies (#[trigger] acts[i].len() > 0 <==> ack_executes(
        (i + 1) as nat,
        states[0].cluster@.len(),
    )) by {
        if ack_executes((i + 1) as nat, states[0].cluster@.len()) {
            assert(acts[i].len() == 1);
        }
    }
}

/// After `k` drain steps, the first `k` queued operations went to the
/// leader, in order, and the rest is still queued.
proof fn lemma_drain_prefix(states: Seq<Replica>, acts: Seq<Seq<ActionView>>, k: int)
    requires
        0 <= k <= acts.len(),
        states.len() == acts.len() + 1,
        acts.len() == states[0].offline_queue@.len(),
        forall|i: int| 0 <= i < acts.len() ==> states[i].drain_step(states[i + 1], #[trigger] acts[i]),
    ensures
        states[k].offline_queue@ == states[0].offline_queue@.subrange(k, acts.len() as int),
        states[k].leader_addr == states[0].leader_addr,
        states[k].address == states[0].address,
        forall|i: int|
            0 <= i < k ==> #[trigger] acts[i] == seq![
                ActionView::Send {
                    to: states[0].leader_addr,
                    msg: MessageView::Request {
                        req_id: 0,
                        op: states[0].offline_queue@[i]@,
                        addr: states[0].address,
                    },
                    policy: SendPolicy::Propagate,
                },
                ActionView::DrainOfflineQueue,
            ],
    decreases k,
{
    if k == 0 {
        assert(states[0].offline_queue@.subrange(0, acts.len() as int) =~= states[0].offline_queue@);
    } else {
        lemma_drain_prefix(states, acts, k - 1);
        let i = k - 1;
        assert(states[i].drain_step(states[i + 1], acts[i]));
        assert(states[i].offline_queue@[0] == states[0].offline_queue@[i]);
        assert(states[i].offline_queue@.drop_first() =~= states[0].offline_queue@.subrange(
            k,
            acts.len() as int,
        ));
    }
}

/// Reconciliation: after a database replacement a replica drains its offline
/// queue one operation per step, sending each to the leader as a request
/// with id 0, oldest first, until the queue is empty.
pub proof fn lemma_offline_drain(states: Seq<Replica>, acts: Seq<Seq<ActionView>>)
    requires
        states.len() == acts.len() + 1,
        acts.len() == states[0].offline_queue@.len(),
        forall|i: int| 0 <= i < acts.len() ==> states[i].drain_step(states[i + 1], #[trigger] acts[i]),
    ensures
        forall|i: int|
            0 <= i < acts.len() ==> #[trigger] acts[i] == seq![
                ActionView::Send {
                    to: states[0].leader_addr,
                    msg: MessageView::Request {
                        req_id: 0,
                        op: states[0].offline_queue@[i]@,
                        addr: states[0].address,
                    },
                    policy: SendPolicy::Propagate,
                },
                ActionView::DrainOfflineQueue,
            ],
        states[acts.len() as int].offline_queue@.len() == 0,
{
    lemma_drain_prefix(states, acts, acts.len() as int);
}

/// The first `k` requests took consecutive ids from the starting one.
proof fn lemma_op_ids_prefix(
    pre: Seq<Leader>,
    post: Seq<Leader>,
    req_ids: Seq<u32>,
    ops: Seq<Operation>,
    clients: Seq<NodeAddr>,
    acts: Seq<Seq<ActionView>>,
    k: int,
)
    requires
        0 <= k < pre.len(),
        pre.len() == ops.len() + 1,
        post.len() == ops.len(),
        req_ids.len() == ops.len(),
        clients.len() == ops.len(),
        acts.len() == ops.len(),
        pre[0].current_op_id + ops.len() <= u32::MAX,
        forall|i: int|
            0 <= i < ops.len() ==> pre[i].request_step(
                req_ids[i],
                ops[i],
                clients[i],
                post[i],
                #[trigger] acts[i],
            ),
        forall|i: int|
            0 <= i < ops.len() ==> #[trigger] pre[i + 1] == (Leader {
                current_op_id: (post[i].current_op_id + 1) as u32,
                ..post[i]
            }),
    ensures
        pre[k].current_op_id == pre[0].current_op_id + k,
        pre[k].cluster == pre[0].cluster,
        pre[k].id == pre[0].id,
    decreases k,
{
    if k > 0 {
        lemma_op_ids_prefix(pre, post, req_ids, ops, clients, acts, k - 1);
        let i = k - 1;
        assert(pre[i].request_step(req_ids[i], ops[i], clients[i], post[i], acts[i]));
        assert(pre[i + 1] == (Leader { current_op_id: (post[i].current_op_id + 1) as u32, ..post[i] }));
    }
}

/// The actions of a leader that logs `op` under `op_id`: executing it at
/// once when the leader is alone, else the log entry to every other member;
/// then advancing the operation id.
pub open spec fn logging_actions(leader: Leader, op_id: u32, op: Operation) -> Seq<ActionView> {
    if leader.cluster@.len() == 1 {
        seq![ActionView::Execute { op_id, operation: op@ }, ActionView::AdvanceOpId]
    } else {
        sends_to(
            peers_of(leader.cluster@, leader.id),
            MessageView::Log { op_id, op: op@ },
            SendPolicy::Propagate,
        ).push(ActionView::AdvanceOpId)
    }
}

/// Ordering: a leader that logs requests one after the other, advancing its
/// operation id after each, gives them consecutive ids; the `i`-th request
/// is pending under the starting id plus `i` and is executed (by a leader
/// alone in its cluster) or logged to every other member under that id.
pub proof fn lemma_sequential_op_ids(
    pre: Seq<Leader>,
    post: Seq<Leader>,
    req_ids: Seq<u32>,
    ops: Seq<Operation>,
    clients: Seq<NodeAddr>,
    acts: Seq<Seq<ActionView>>,
)
    requires
        pre.len() == ops.len() + 1,
        post.len() == ops.len(),
        req_ids.len() == ops.len(),
        clients.len() == ops.len(),
        acts.len() == ops.len(),
        pre[0].current_op_id + ops.len() <= u32::MAX,
        forall|i: int|
            0 <= i < ops.len() ==> pre[i].request_step(
                req_ids[i],
                ops[i],
                clients[i],
                post[i],
                #[trigger] acts[i],
            ),
        forall|i: int|
            0 <= i < ops.len() ==> #[trigger] pre[i + 1] == (Leader {
                current_op_id: (post[i].current_op_id + 1) as u32,
                ..post[i]
            }),
    ensures
        forall|i: int|
            0 <= i < ops.len() ==> #[trigger] acts[i] == logging_actions(
                pre[0],
                (pre[0].current_op_id + i) as u32,
                ops[i],
            ),
        forall|i: int|
            0 <= i < ops.len() ==> #[trigger] post[i].operations@[(pre[0].current_op_id
                + i) as u32] == (PendingOperation {
                op: ops[i],
                client_addr: clients[i],
                ack_count: 0,
                request_id: req_ids[i],
            }),
{
    assert forall|i: int| 0 <= i < ops.len() implies #[trigger] acts[i] == logging_actions(
        pre[0],
        (pre[0].current_op_id + i) as u32,
        ops[i],
    ) by {
        lemma_op_ids_prefix(pre, post, req_ids, ops, clients, acts, i);
        assert(pre[i].request_step(req_ids[i], ops[i], clients[i], post[i], acts[i]));
    }
    assert forall|i: int| 0 <= i < ops.len() implies #[trigger] post[i].operations@[(
    pre[0].current_op_id + i) as u32] == (PendingOperation {
        op: ops[i],
        client_addr: clients[i],
        ack_count: 0,
        request_id: req_ids[i],
    }) by {
        lemma_op_ids_prefix(pre, post, req_ids, ops, clients, acts, i);
        assert(pre[i].request_step(req_ids[i], ops[i], clients[i], post[i], acts[i]));
    }
}

/// Majority threshold: in a cluster of `n` members, the acknowledgement
/// that brings a pending operation's count to `k` executes it exactly when
/// those `k` acknowledgements with the leader form a strict majority of the
/// cluster (`2 * (k + 1) > n`) while `k - 1` of them with the leader did not
/// (`2 * k <= n`); the count always grows by one.
pub proof fn lemma_ack_executes_at_majority(
    pre: Leader,
    op_id: u32,
    post: Leader,
    acts: Seq<ActionView>,
)
    requires
        pre.operations@.contains_key(op_id),
        pre.operations@[op_id].ack_count < usize::MAX,
        pre.ack_step(op_id, post, acts),
    ensures
        ({
            let k = pre.operations@[op_id].ack_count + 1;
            let n = pre.cluster@.len();
            &&& post.operations@[op_id].ack_count == k
            &&& acts.len() > 0 <==> (2 * (k + 1) > n && 2 * k <= n)
            &&& acts.len() > 0 ==> acts == seq![
                ActionView::Execute { op_id, operation: pre.operations@[op_id].op@ },
            ]
        }),
{
    let k = pre.operations@[op_id].ack_count + 1;
    let n = pre.cluster@.len();
    assert(k == n / 2 <==> (2 * (k + 1) > n && 2 * k <= n));
}

} // verus!
