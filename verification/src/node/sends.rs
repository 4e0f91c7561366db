//! Building lists of actions: copies of a message for several peers, and
//! the concatenation of action lists.

use vstd::prelude::*;

use crate::address::NodeAddr;
use crate::operation::{AccountQueryResult, OperationResult};
use crate::node::messages::{actions_view, sends_to, ActionView, Message, NodeAction, SendPolicy};

verus! {

/// The views of two joined action lists are the joined views.
pub proof fn lemma_actions_view_add(a: Seq<NodeAction>, b: Seq<NodeAction>)
    ensures
        actions_view(a + b) == actions_view(a) + actions_view(b),
{
    assert(actions_view(a + b) =~= actions_view(a) + actions_view(b));
}

/// The view of a list with one more action.
pub proof fn lemma_actions_view_push(a: Seq<NodeAction>, x: NodeAction)
    ensures
        actions_view(a.push(x)) == actions_view(a).push(x@),
{
    assert(actions_view(a.push(x)) =~= actions_view(a).push(x@));
}

/// A copy of a list of plain values.
pub fn copy_vec<T: Copy>(v: &Vec<T>) -> (r: Vec<T>)
    ensures
        r@ == v@,
{
    let mut r: Vec<T> = Vec::new();
    let mut i: usize = 0;
    while i < v.len()
        invariant
            0 <= i <= v@.len(),
            r@ == v@.take(i as int),
        decreases v@.len() - i,
    {
        r.push(v[i]);
        i = i + 1;
        assert(r@ =~= v@.take(i as int));
    }
    assert(v@.take(v@.len() as int) =~= v@);
    r
}

/// A copy of an operation result.
pub fn copy_result(res: &OperationResult) -> (r: OperationResult)
    ensures
        r@ == res@,
{
    match res {
        OperationResult::Charge(c) => OperationResult::Charge(*c),
        OperationResult::LimitAccount(c) => OperationResult::LimitAccount(*c),
        OperationResult::LimitCard(c) => OperationResult::LimitCard(*c),
        OperationResult::AccountQuery(q) => OperationResult::AccountQuery(
            AccountQueryResult {
                account_id: q.account_id,
                total_spent: q.total_spent,
                per_card_spent: copy_vec(&q.per_card_spent),
            },
        ),
        OperationResult::DatabaseSnapshot(s) => OperationResult::DatabaseSnapshot(s.duplicate()),
        OperationResult::ReplaceDatabase => OperationResult::ReplaceDatabase,
    }
}

/// A copy of a message.
pub fn copy_message(m: &Message) -> (r: Message)
    ensures
        r@ == m@,
{
    match m {
        Message::Request { req_id, op, addr } => Message::Request {
            req_id: *req_id,
            op: op.duplicate(),
            addr: *addr,
        },
        Message::Log { op_id, op } => Message::Log { op_id: *op_id, op: op.duplicate() },
        Message::Ack { op_id } => Message::Ack { op_id: *op_id },
        Message::Election { candidate_id, candidate_addr } => Message::Election {
            candidate_id: *candidate_id,
            candidate_addr: *candidate_addr,
        },
        Message::ElectionOk { responder_id } => Message::ElectionOk { responder_id: *responder_id },
        Message::Coordinator { leader_id, leader_addr } => Message::Coordinator {
            leader_id: *leader_id,
            leader_addr: *leader_addr,
        },
        Message::Join { addr } => Message::Join { addr: *addr },
        Message::ClusterUpdate { new_member } => Message::ClusterUpdate { new_member: *new_member },
        Message::ClusterView { members, leader_addr, database } => Message::ClusterView {
            members: copy_vec(members),
            leader_addr: *leader_addr,
            database: database.duplicate(),
        },
        Message::Response { req_id, op_result } => Message::Response {
            req_id: *req_id,
            op_result: copy_result(op_result),
        },
        Message::RoleQuery { addr } => Message::RoleQuery { addr: *addr },
        Message::RoleResponse { node_id, role } => Message::RoleResponse {
            node_id: *node_id,
            role: *role,
        },
    }
}

/// One `Send` of `msg` to each target, in order.
pub fn broadcast(targets: &Vec<NodeAddr>, msg: &Message, policy: SendPolicy) -> (r: Vec<NodeAction>)
    ensures
        actions_view(r@) == sends_to(targets@, msg@, policy),
{
    let mut r: Vec<NodeAction> = Vec::new();
    let mut i: usize = 0;
    while i < targets.len()
        invariant
            0 <= i <= targets@.len(),
            actions_view(r@) == sends_to(targets@.take(i as int), msg@, policy),
        decreases targets@.len() - i,
    {
        let a = NodeAction::Send { to: targets[i], msg: copy_message(msg), policy };
        proof {
            lemma_actions_view_push(r@, a);
            assert(targets@.take(i as int + 1) =~= targets@.take(i as int).push(targets@[i as int]));
            assert(sends_to(targets@.take(i as int + 1), msg@, policy) =~= sends_to(
                targets@.take(i as int),
                msg@,
                policy,
            ).push(ActionView::Send { to: targets@[i as int], msg: msg@, policy }));
        }
        r.push(a);
        i = i + 1;
    }
    assert(targets@.take(targets@.len() as int) =~= targets@);
    r
}

/// Appends `b` to `a`.
pub fn append_actions(a: &mut Vec<NodeAction>, b: Vec<NodeAction>)
    ensures
        actions_view(final(a)@) == actions_view(old(a)@) + actions_view(b@),
{
    let mut b = b;
    proof {
        lemma_actions_view_add(a@, b@);
    }
    a.append(&mut b);
}

/// How far a `JoinCluster` action got: the target being tried, and whether
/// it already refused once.
#[derive(Clone, Copy, Debug, PartialEq, Eq, Structural)]
pub struct JoinProgress {
    pub index: usize,
    pub retried: bool,
}

/// What a `JoinCluster` action does next.
#[derive(Clone, Copy, Debug, PartialEq, Eq, Structural)]
pub enum JoinNext {
    /// Send `Join` to this target.
    Send(NodeAddr),
    /// Stop: a target accepted, or every target was tried.
    Done,
    /// Stop and report the last send's error.
    Fail,
}

/// The step of a `JoinCluster` action after the outcome `last_ok` of the
/// previous send (`None` before the first): the targets are tried in order
/// until one accepts `Join`; a target that refuses gets a second try; when
/// that second try fails too, a strict join fails and a lenient one moves
/// on; after a successful second try the next target is tried as well.
pub open spec fn join_step(
    targets: Seq<NodeAddr>,
    strict: bool,
    p: JoinProgress,
    last_ok: Option<bool>,
) -> (JoinNext, JoinProgress) {
    let try_from = |i: int|
        if 0 <= i < targets.len() {
            (JoinNext::Send(targets[i]), JoinProgress { index: i as usize, retried: false })
        } else {
            (JoinNext::Done, JoinProgress { index: i as usize, retried: false })
        };
    match last_ok {
        None => try_from(p.index as int),
        Some(true) => if p.retried {
            try_from(p.index + 1)
        } else {
            (JoinNext::Done, p)
        },
        Some(false) => if !p.retried {
            (JoinNext::Send(targets[p.index as int]), JoinProgress { index: p.index, retried: true })
        } else if strict {
            (JoinNext::Fail, p)
        } else {
            try_from(p.index + 1)
        },
    }
}

/// The first step of a `JoinCluster` action.
pub fn join_start() -> (p: JoinProgress)
    ensures
        p == (JoinProgress { index: 0, retried: false }),
{
    JoinProgress { index: 0, retried: false }
}

/// Computes `join_step`; the progress names a target that was tried, unless
/// no send happened yet.
pub fn join_next(targets: &Vec<NodeAddr>, strict: bool, p: JoinProgress, last_ok: Option<bool>) -> (res:
    (JoinNext, JoinProgress))
    requires
        last_ok is Some ==> p.index < targets@.len(),
    ensures
        res == join_step(targets@, strict, p, last_ok),
        res.0 is Send ==> res.1.index < targets@.len(),
{
    let n = targets.len();
    let next = match last_ok {
        None => p.index,
        Some(true) => {
            if p.retried {
                p.index + 1
            } else {
                return (JoinNext::Done, p);
            }
        },
        Some(false) => {
            if !p.retried {
                return (
                    JoinNext::Send(targets[p.index]),
                    JoinProgress { index: p.index, retried: true },
                );
            } else if strict {
                return (JoinNext::Fail, p);
            } else {
                p.index + 1
            }
        },
    };
    if next < n {
        (JoinNext::Send(targets[next]), JoinProgress { index: next, retried: false })
    } else {
        (JoinNext::Done, JoinProgress { index: next, retried: false })
    }
}

/// What follows a send, by its policy.
#[derive(Clone, Copy, Debug, PartialEq, Eq, Structural)]
pub enum SendNext {
    /// Go on with the next action.
    Continue,
    /// Send the same message once more.
    Retry,
    /// Stop and report the send's error.
    Fail,
}

/// What follows a send that succeeded (`ok`) or failed, on its first try or
/// its second (`retried`): a success or an ignored failure goes on; a failure
/// is reported, except the first failure of a send that may be retried.
pub open spec fn send_outcome(policy: SendPolicy, ok: bool, retried: bool) -> SendNext {
    if ok {
        SendNext::Continue
    } else {
        match policy {
            SendPolicy::IgnoreError => SendNext::Continue,
            SendPolicy::Propagate => SendNext::Fail,
            SendPolicy::RetryOnce => if retried {
                SendNext::Fail
            } else {
                SendNext::Retry
            },
        }
    }
}

/// Computes `send_outcome`.
pub fn after_send(policy: SendPolicy, ok: bool, retried: bool) -> (n: SendNext)
    ensures
        n == send_outcome(policy, ok, retried),
{
    if ok {
        SendNext::Continue
    } else {
        match policy {
            SendPolicy::IgnoreError => SendNext::Continue,
            SendPolicy::Propagate => SendNext::Fail,
            SendPolicy::RetryOnce => if retried {
                SendNext::Fail
            } else {
                SendNext::Retry
            },
        }
    }
}

} // verus!
