//! The leader role: it assigns operation ids, replicates each request to the
//! replicas, executes it once a majority acknowledged it, and answers the
//! client or the local station.

use vstd::prelude::*;

use crate::address::NodeAddr;
use crate::node::cluster::{
    addrs_other_than, addrs_other_than2, cluster_from, cluster_insert, cluster_remove,
    higher_than, peers_of, Cluster,
};
use crate::node::messages::{
    actions_view, charge_reply, charge_reply_msg, sends_to, ActionView, Message, MessageView,
    NodeAction, NodeRole, RoleChange, SendPolicy,
};
use crate::node::replica::Replica;
use crate::node::sends::{append_actions, broadcast, lemma_actions_view_push};
use crate::node::table::KeyTable;
use crate::operation::{DatabaseSnapshot, Operation, OperationResult, OperationView};

verus! {

/// How long a node waits for an `ElectionOk` before it takes the lead.
pub const ELECTION_TIMEOUT_MS: u64 = 2000;

/// Milliseconds from `start` to `now`; zero when `now` is earlier.
pub open spec fn elapsed_ms(start: u64, now: u64) -> int {
    if now >= start {
        now - start
    } else {
        0
    }
}

/// Whether an election started at `start` has timed out at `now`.
pub open spec fn election_timed_out(start: u64, now: u64) -> bool {
    elapsed_ms(start, now) >= ELECTION_TIMEOUT_MS
}

/// Checks whether an election started at `start` has timed out at `now`.
pub fn has_timed_out(start: u64, now: u64) -> (b: bool)
    ensures
        b == election_timed_out(start, now),
{
    now >= start && now - start >= ELECTION_TIMEOUT_MS
}

/// The number of acknowledgements after which a leader of a cluster of `n`
/// members executes an operation: half of the other members, rounded to
/// the nearest, halves rounded up.
pub open spec fn majority_acks(n: nat) -> nat {
    n / 2
}

/// Whether the `count`-th acknowledgement, in a cluster of `n` members,
/// makes the leader execute the operation: the one that, with the leader
/// itself, first forms a majority.
pub open spec fn ack_executes(count: nat, n: nat) -> bool {
    count == majority_acks(n)
}

/// Executing each of these operations, in order, as operations of the node
/// itself (id 0).
pub open spec fn replays(ops: Seq<Operation>) -> Seq<ActionView> {
    ops.map_values(|op: Operation| ActionView::Execute { op_id: 0, operation: op@ })
}

/// The actions that execute each operation, in order, with id 0.
fn replay_actions(ops: &Vec<Operation>) -> (r: Vec<NodeAction>)
    ensures
        actions_view(r@) == replays(ops@),
{
    let mut r: Vec<NodeAction> = Vec::new();
    let mut i: usize = 0;
    while i < ops.len()
        invariant
            0 <= i <= ops@.len(),
            actions_view(r@) == replays(ops@.take(i as int)),
        decreases ops@.len() - i,
    {
        let a = NodeAction::Execute { op_id: 0, operation: ops[i].duplicate() };
        proof {
            lemma_actions_view_push(r@, a);
            assert(replays(ops@.take(i as int + 1)) =~= replays(ops@.take(i as int)).push(a@));
        }
        r.push(a);
        i = i + 1;
    }
    assert(ops@.take(ops@.len() as int) =~= ops@);
    r
}

/// A request that the leader logged and has not answered yet.
#[derive(Debug)]
pub struct PendingOperation {
    pub op: Operation,
    pub client_addr: NodeAddr,
    pub ack_count: usize,
    pub request_id: u32,
}

impl PendingOperation {
    /// A pending operation with no acknowledgement yet.
    pub fn new(op: Operation, client_addr: NodeAddr, request_id: u32) -> (p: PendingOperation)
        ensures
            p == (PendingOperation { op, client_addr, ack_count: 0, request_id }),
    {
        PendingOperation { op, client_addr, ack_count: 0, request_id }
    }
}

/// The leader's state.
pub struct Leader {
    pub id: u64,
    pub current_op_id: u32,
    pub address: NodeAddr,
    pub cluster: Cluster,
    pub operations: KeyTable<PendingOperation>,
    pub is_offline: bool,
    pub offline_queue: Vec<Operation>,
    pub election_in_progress: bool,
    /// When the running election started, in milliseconds.
    pub election_start: Option<u64>,
}

impl Leader {
    /// The member list has distinct ids and the pending table distinct keys.
    pub open spec fn wf(&self) -> bool {
        self.cluster.wf() && self.operations.wf()
    }

    /// The same state with another election state.
    pub open spec fn with_election(self, in_progress: bool, start: Option<u64>) -> Leader {
        Leader { election_in_progress: in_progress, election_start: start, ..self }
    }

    /// Everything but the pending operations is as in `other`.
    pub open spec fn same_but_operations(self, other: Leader) -> bool {
        &&& self.id == other.id
        &&& self.current_op_id == other.current_op_id
        &&& self.address == other.address
        &&& self.cluster == other.cluster
        &&& self.is_offline == other.is_offline
        &&& self.offline_queue == other.offline_queue
        &&& self.election_in_progress == other.election_in_progress
        &&& self.election_start == other.election_start
    }

    /// Everything but the members is as in `other`.
    pub open spec fn same_but_cluster(self, other: Leader) -> bool {
        &&& self.id == other.id
        &&& self.current_op_id == other.current_op_id
        &&& self.address == other.address
        &&& self.operations == other.operations
        &&& self.is_offline == other.is_offline
        &&& self.offline_queue == other.offline_queue
        &&& self.election_in_progress == other.election_in_progress
        &&& self.election_start == other.election_start
    }

    /// Whether an election is running and has timed out at `now`.
    pub open spec fn timeout_fires(self, now: u64) -> bool {
        self.election_in_progress && match self.election_start {
            Some(start) => election_timed_out(start, now),
            None => false,
        }
    }

    /// The `Coordinator` announcement to every other member.
    pub open spec fn announcement(self) -> Seq<ActionView> {
        sends_to(
            peers_of(self.cluster@, self.id),
            MessageView::Coordinator { leader_id: self.id, leader_addr: self.address },
            SendPolicy::IgnoreError,
        )
    }

    /// State and actions after starting an election at `now`: when none is
    /// running, `Election` goes to every member with a higher id and the
    /// election waits for their answers; with no such member the leader
    /// stays leader and announces itself.
    pub open spec fn election_outcome(self, now: u64) -> (Leader, Seq<ActionView>) {
        if self.election_in_progress {
            (self, Seq::empty())
        } else {
            let higher = higher_than(self.cluster@, self.id);
            if higher.len() > 0 {
                (
                    self.with_election(true, Some(now)),
                    sends_to(
                        higher,
                        MessageView::Election { candidate_id: self.id, candidate_addr: self.address },
                        SendPolicy::IgnoreError,
                    ),
                )
            } else {
                (self.with_election(false, None), self.announcement())
            }
        }
    }

    /// Logging a request under the current operation id: alone in its
    /// cluster the leader executes it; otherwise the log entry goes to every
    /// other member. Either way the operation id then advances, so that the
    /// next request gets the next id.
    pub open spec fn request_step(
        self,
        req_id: u32,
        op: Operation,
        client_addr: NodeAddr,
        post: Leader,
        acts: Seq<ActionView>,
    ) -> bool {
        &&& post.same_but_operations(self)
        &&& post.operations@ == self.operations@.insert(
            self.current_op_id,
            PendingOperation { op, client_addr, ack_count: 0, request_id: req_id },
        )
        &&& self.cluster@.len() == 1 ==> acts == seq![
            ActionView::Execute { op_id: self.current_op_id, operation: op@ },
            ActionView::AdvanceOpId,
        ]
        &&& self.cluster@.len() != 1 ==> acts == sends_to(
            peers_of(self.cluster@, self.id),
            MessageView::Log { op_id: self.current_op_id, op: op@ },
            SendPolicy::Propagate,
        ).push(ActionView::AdvanceOpId)
    }

    /// Counting an acknowledgement: an unknown id changes nothing; a known
    /// one counts one more, and the count that reaches the majority executes
    /// the operation.
    pub open spec fn ack_step(self, op_id: u32, post: Leader, acts: Seq<ActionView>) -> bool {
        &&& post.same_but_operations(self)
        &&& !self.operations@.contains_key(op_id) ==> post.operations@ == self.operations@
            && acts.len() == 0
        &&& self.operations@.contains_key(op_id) ==> {
            let p = self.operations@[op_id];
            let count = p.ack_count + 1;
            &&& post.operations@ == self.operations@.insert(
                op_id,
                PendingOperation { ack_count: count as usize, ..p },
            )
            &&& ack_executes(count as nat, self.cluster@.len()) ==> acts == seq![
                ActionView::Execute { op_id, operation: p.op@ },
            ]
            &&& !ack_executes(count as nat, self.cluster@.len()) ==> acts.len() == 0
        }
    }

    /// The client and request id of the operation with this id: those of
    /// the pending entry, or the node itself and 0 for id 0.
    pub open spec fn origin_of(self, op_id: u32) -> (NodeAddr, u32) {
        if op_id != 0 {
            (self.operations@[op_id].client_addr, self.operations@[op_id].request_id)
        } else {
            (self.address, 0)
        }
    }

    /// Answering an executed operation: the pending entry is dropped; a
    /// snapshot goes to the node that asked to join, with the members and
    /// the leader, and may be sent twice; a replacement is not answered; a
    /// charge of the local station goes back to the station; any other
    /// operation of a client goes back to that client as a `Response`.
    pub open spec fn result_step(
        self,
        op_id: u32,
        operation: Operation,
        result: OperationResult,
        post: Leader,
        acts: Seq<ActionView>,
    ) -> bool {
        let (client, request_id) = self.origin_of(op_id);
        &&& post.same_but_operations(self)
        &&& op_id != 0 ==> post.operations@ == self.operations@.remove(op_id)
        &&& op_id == 0 ==> post.operations@ == self.operations@
        &&& match operation {
            Operation::GetDatabase { addr } => match result {
                OperationResult::DatabaseSnapshot(s) => acts == seq![
                    ActionView::Send {
                        to: addr,
                        msg: MessageView::ClusterView {
                            members: self.cluster@,
                            leader_addr: self.address,
                            database: s@,
                        },
                        policy: SendPolicy::RetryOnce,
                    },
                ],
                _ => acts.len() == 0,
            },
            Operation::ReplaceDatabase { .. } => acts.len() == 0,
            _ => if client == self.address {
                match (operation, result) {
                    (Operation::Charge { .. }, OperationResult::Charge(cr)) => acts == seq![
                        ActionView::ToStation { msg: charge_reply(request_id, cr), propagate: true },
                    ],
                    _ => acts.len() == 0,
                }
            } else {
                acts == seq![
                    ActionView::Send {
                        to: client,
                        msg: MessageView::Response { req_id: request_id, op_result: result@ },
                        policy: SendPolicy::Propagate,
                    },
                ]
            },
        }
    }

    /// Answering a candidate: a lower candidate gets `ElectionOk` and the
    /// leader starts its own election; a higher one is ignored. The leader
    /// stays leader.
    pub open spec fn election_step(
        self,
        candidate_id: u64,
        candidate_addr: NodeAddr,
        now: u64,
        post: Leader,
        rc: RoleChange,
        acts: Seq<ActionView>,
    ) -> bool {
        let (s, election) = self.election_outcome(now);
        &&& rc == RoleChange::NoChange
        &&& self.id > candidate_id ==> post == s && acts == seq![
            ActionView::Send {
                to: candidate_addr,
                msg: MessageView::ElectionOk { responder_id: self.id },
                policy: SendPolicy::IgnoreError,
            },
        ] + election
        &&& self.id <= candidate_id ==> post == self && acts.len() == 0
    }

    /// Receiving `Coordinator`: the election ends; an id at least the
    /// leader's own makes it a replica of the announced leader.
    pub open spec fn coordinator_step(
        self,
        leader_id: u64,
        leader_addr: NodeAddr,
        post: Leader,
        rc: RoleChange,
    ) -> bool {
        &&& post == self.with_election(false, None)
        &&& leader_id >= self.id ==> rc == (RoleChange::DemoteToReplica {
            new_leader_addr: leader_addr,
        })
        &&& leader_id < self.id ==> rc == RoleChange::NoChange
    }

    /// Admitting the node at `addr` (id `addr_id`): a snapshot is collected
    /// for it, it becomes a member, and every other member but the leader
    /// hears of it.
    pub open spec fn join_step(self, addr: NodeAddr, addr_id: u64, post: Leader, acts: Seq<
        ActionView,
    >) -> bool {
        &&& post.same_but_cluster(self)
        &&& post.cluster@ == cluster_insert(self.cluster@, addr_id, addr)
        &&& acts == seq![
            ActionView::Execute { op_id: 0, operation: OperationView::GetDatabase { addr } },
        ] + sends_to(
            addrs_other_than2(post.cluster@, self.address, addr),
            MessageView::ClusterUpdate { new_member: (addr_id, addr) },
            SendPolicy::Propagate,
        )
    }

    /// Receiving a cluster view: the database is replaced by the snapshot,
    /// the members are those sent, and an election starts.
    pub open spec fn cluster_view_step(
        self,
        members: Vec<(u64, NodeAddr)>,
        snapshot: DatabaseSnapshot,
        now: u64,
        post: Leader,
        acts: Seq<ActionView>,
    ) -> bool {
        let joined = Leader { cluster: post.cluster, ..self };
        let (s, election) = joined.election_outcome(now);
        &&& post.cluster@ == cluster_from(members@)
        &&& post == s
        &&& acts == seq![
            ActionView::Execute {
                op_id: 0,
                operation: OperationView::ReplaceDatabase { snapshot: snapshot@ },
            },
        ] + election
    }

    /// Checking the election at `now`: when it timed out, it ends and the
    /// leader announces itself again; otherwise nothing happens.
    pub open spec fn timeout_step(self, now: u64, post: Leader, rc: RoleChange, acts: Seq<
        ActionView,
    >) -> bool {
        &&& rc == RoleChange::NoChange
        &&& self.timeout_fires(now) ==> post == self.with_election(false, None) && acts
            == self.announcement()
        &&& !self.timeout_fires(now) ==> post == self && acts.len() == 0
    }

    /// Losing the connection to the node with id `address_id`: it leaves
    /// the member list.
    pub open spec fn connection_lost_step(self, address_id: u64, post: Leader, rc: RoleChange) -> bool {
        &&& post.same_but_cluster(self)
        &&& post.cluster@ == cluster_remove(self.cluster@, address_id)
        &&& rc == RoleChange::NoChange
    }

    /// Going back online: the listener reopens, `Join` is offered to the
    /// other members in turn (a second try after a refusal not checked),
    /// and the operations queued offline are executed, oldest first, and
    /// leave the queue.
    pub open spec fn connect_step(self, post: Leader, acts: Seq<ActionView>) -> bool {
        &&& post == (Leader { is_offline: false, offline_queue: post.offline_queue, ..self })
        &&& post.offline_queue@.len() == 0
        &&& acts == seq![
            ActionView::Reconnect,
            ActionView::JoinCluster {
                targets: addrs_other_than(self.cluster@, self.address),
                addr: self.address,
                strict: false,
            },
        ] + replays(self.offline_queue@)
    }

    /// A leader alone in its cluster, with operation ids starting at 1.
    pub fn new(id: u64, address: NodeAddr) -> (l: Leader)
        ensures
            l.wf(),
            l.id == id,
            l.address == address,
            l.current_op_id == 1,
            l.cluster@ == seq![(id, address)],
            l.operations@ == Map::<u32, PendingOperation>::empty(),
            !l.is_offline,
            l.offline_queue@.len() == 0,
            !l.election_in_progress,
            l.election_start is None,
    {
        Leader {
            id,
            current_op_id: 1,
            address,
            cluster: Cluster::single(id, address),
            operations: KeyTable::new(),
            is_offline: false,
            offline_queue: Vec::new(),
            election_in_progress: false,
            election_start: None,
        }
    }

    /// A leader built from the state of a node that was a replica; the
    /// replica's logged operations are not carried over.
    pub fn from_existing(
        id: u64,
        current_op_id: u32,
        address: NodeAddr,
        members: Cluster,
        operations_from_replica: KeyTable<Operation>,
        is_offline: bool,
        offline_queue: Vec<Operation>,
    ) -> (l: Leader)
        requires
            members.wf(),
        ensures
            l.wf(),
            l.id == id,
            l.current_op_id == current_op_id,
            l.address == address,
            l.cluster == members,
            l.operations@ == Map::<u32, PendingOperation>::empty(),
            l.is_offline == is_offline,
            l.offline_queue == offline_queue,
            !l.election_in_progress,
            l.election_start is None,
    {
        let _ = operations_from_replica;
        Leader {
            id,
            current_op_id,
            address,
            cluster: members,
            operations: KeyTable::new(),
            is_offline,
            offline_queue,
            election_in_progress: false,
            election_start: None,
        }
    }

    /// Turns this leader into a replica of `new_leader_addr`; pending
    /// operations are dropped.
    pub fn into_replica(self, new_leader_addr: NodeAddr) -> (r: Replica)
        requires
            self.wf(),
        ensures
            r.wf(),
            r.id == self.id,
            r.address == self.address,
            r.leader_addr == new_leader_addr,
            r.cluster == self.cluster,
            r.operations@ == Map::<u32, Operation>::empty(),
            r.is_offline == self.is_offline,
            r.offline_queue == self.offline_queue,
            !r.election_in_progress,
            r.election_start is None,
    {
        Replica::from_existing(
            self.id,
            self.address,
            new_leader_addr,
            self.cluster,
            KeyTable::new(),
            self.is_offline,
            self.offline_queue,
        )
    }

    /// Whether the node is offline.
    pub fn is_offline(&self) -> (b: bool)
        ensures
            b == self.is_offline,
    {
        self.is_offline
    }

    /// The node's own address.
    pub fn get_address(&self) -> (a: NodeAddr)
        ensures
            a == self.address,
    {
        self.address
    }

    /// The number of members.
    pub fn cluster_len(&self) -> (n: usize)
        ensures
            n == self.cluster@.len(),
    {
        self.cluster.len()
    }

    /// Queues an operation received while offline.
    pub fn log_offline_operation(&mut self, op: Operation)
        ensures
            *final(self) == (Leader { offline_queue: final(self).offline_queue, ..*old(self) }),
            final(self).offline_queue@ == old(self).offline_queue@.push(op),
    {
        self.offline_queue.push(op);
    }

    /// Logs a request under the current operation id. Alone in its cluster
    /// the leader executes it at once; otherwise it sends the log entry to
    /// every other member. Either way the operation id advances afterwards.
    pub fn handle_request(&mut self, req_id: u32, op: Operation, client_addr: NodeAddr) -> (r: Vec<
        NodeAction,
    >)
        requires
            old(self).wf(),
        ensures
            final(self).wf(),
            old(self).request_step(req_id, op, client_addr, *final(self), actions_view(r@)),
    {
        let ghost opv = op@;
        let op_id = self.current_op_id;
        let copy = op.duplicate();
        self.operations.insert(op_id, PendingOperation::new(op, client_addr, req_id));
        if self.cluster.len() == 1 {
            let mut r: Vec<NodeAction> = Vec::new();
            let a = NodeAction::Execute { op_id, operation: copy };
            proof {
                lemma_actions_view_push(r@, a);
            }
            r.push(a);
            proof {
                lemma_actions_view_push(r@, NodeAction::AdvanceOpId);
            }
            r.push(NodeAction::AdvanceOpId);
            assert(actions_view(r@) =~= seq![
                ActionView::Execute { op_id, operation: opv },
                ActionView::AdvanceOpId,
            ]);
            return r;
        }
        let peers = self.cluster.peers_of(self.id);
        let mut r = broadcast(&peers, &Message::Log { op_id, op: copy }, SendPolicy::Propagate);
        proof {
            lemma_actions_view_push(r@, NodeAction::AdvanceOpId);
        }
        r.push(NodeAction::AdvanceOpId);
        r
    }

    /// Advances the operation id once every log entry of a request was sent.
    pub fn advance_op_id(&mut self)
        requires
            old(self).current_op_id < u32::MAX,
        ensures
            *final(self) == (Leader { current_op_id: (old(self).current_op_id + 1) as u32, ..*old(self) }),
    {
        self.current_op_id = self.current_op_id + 1;
    }

    /// Whether `handle_ack` accepts this acknowledgement: the count of a
    /// pending operation must not overflow and the cluster must list at
    /// least one member.
    pub open spec fn ack_allowed(&self, op_id: u32) -> bool {
        self.operations@.contains_key(op_id) ==> (self.operations@[op_id].ack_count < usize::MAX
            && self.cluster@.len() >= 1)
    }

    /// Checks `ack_allowed`.
    pub fn can_handle_ack(&self, op_id: u32) -> (b: bool)
        requires
            self.wf(),
        ensures
            b == self.ack_allowed(op_id),
    {
        match self.operations.get(op_id) {
            Some(p) => p.ack_count < usize::MAX && self.cluster.len() >= 1,
            None => true,
        }
    }

    /// Counts a replica's acknowledgement of an operation; the acknowledgement
    /// that reaches the majority executes it. An unknown operation id is
    /// ignored.
    pub fn handle_ack(&mut self, op_id: u32) -> (r: Vec<NodeAction>)
        requires
            old(self).wf(),
            old(self).ack_allowed(op_id),
        ensures
            final(self).wf(),
            old(self).ack_step(op_id, *final(self), actions_view(r@)),
    {
        let mut r: Vec<NodeAction> = Vec::new();
        match self.operations.remove(op_id) {
            None => {
                assert(self.operations@ =~= old(self).operations@);
                r
            },
            Some(p) => {
                let mut p = p;
                p.ack_count = p.ack_count + 1;
                let n = self.cluster.len();
                if p.ack_count == n / 2 {
                    let a = NodeAction::Execute { op_id, operation: p.op.duplicate() };
                    proof {
                        lemma_actions_view_push(r@, a);
                    }
                    r.push(a);
                    assert(actions_view(r@) =~= seq![ActionView::Execute { op_id, operation: p.op@ }]);
                }
                self.operations.insert(op_id, p);
                assert(self.operations@ =~= old(self).operations@.insert(op_id, p));
                r
            },
        }
    }

    /// Whether `handle_operation_result` accepts a result with this id: it
    /// is `0` (an operation the node started itself) or a pending operation.
    pub open spec fn result_expected(&self, op_id: u32) -> bool {
        op_id == 0 || self.operations@.contains_key(op_id)
    }

    /// Checks `result_expected`.
    pub fn expects_result(&self, op_id: u32) -> (b: bool)
        requires
            self.wf(),
        ensures
            b == self.result_expected(op_id),
    {
        op_id == 0 || self.operations.contains_key(op_id)
    }

    /// Answers the outcome of an executed operation: a snapshot goes to the
    /// node that asked to join, with its members and leader; a charge of
    /// the local station goes back to the station; any other operation of
    /// a client goes back to that client as a `Response`.
    pub fn handle_operation_result(
        &mut self,
        op_id: u32,
        operation: Operation,
        result: OperationResult,
    ) -> (r: Vec<NodeAction>)
        requires
            old(self).wf(),
            old(self).result_expected(op_id),
        ensures
            final(self).wf(),
            old(self).result_step(op_id, operation, result, *final(self), actions_view(r@)),
    {
        let (client, request_id) = if op_id != 0 {
            let p = self.operations.remove(op_id);
            match p {
                Some(p) => (p.client_addr, p.request_id),
                None => (self.address, 0),
            }
        } else {
            (self.address, 0)
        };
        if op_id == 0 {
            assert(self.operations@ =~= old(self).operations@);
        }
        let mut r: Vec<NodeAction> = Vec::new();
        match operation {
            Operation::GetDatabase { addr } => {
                match result {
                    OperationResult::DatabaseSnapshot(s) => {
                        let msg = Message::ClusterView {
                            members: self.cluster.to_vec(),
                            leader_addr: self.address,
                            database: s,
                        };
                        let a = NodeAction::Send { to: addr, msg, policy: SendPolicy::RetryOnce };
                        proof {
                            lemma_actions_view_push(r@, a);
                        }
                        r.push(a);
                        assert(actions_view(r@) =~= seq![r@[0]@]);
                    },
                    _ => {},
                }
                r
            },
            Operation::ReplaceDatabase { .. } => r,
            other => {
                if client == self.address {
                    match (other, result) {
                        (Operation::Charge { .. }, OperationResult::Charge(cr)) => {
                            let a = NodeAction::ToStation {
                                msg: charge_reply_msg(request_id, cr),
                                propagate: true,
                            };
                            proof {
                                lemma_actions_view_push(r@, a);
                            }
                            r.push(a);
                            assert(actions_view(r@) =~= seq![r@[0]@]);
                        },
                        _ => {},
                    }
                    r
                } else {
                    let a = NodeAction::Send {
                        to: client,
                        msg: Message::Response { req_id: request_id, op_result: result },
                        policy: SendPolicy::Propagate,
                    };
                    proof {
                        lemma_actions_view_push(r@, a);
                    }
                    r.push(a);
                    assert(actions_view(r@) =~= seq![r@[0]@]);
                    r
                }
            },
        }
    }

    /// Sends `Coordinator` to every other member; the leader stays leader.
    pub fn anounce_coordinator(&self) -> (res: (RoleChange, Vec<NodeAction>))
        requires
            self.wf(),
        ensures
            res.0 == RoleChange::NoChange,
            actions_view(res.1@) == self.announcement(),
    {
        let peers = self.cluster.peers_of(self.id);
        let r = broadcast(
            &peers,
            &Message::Coordinator { leader_id: self.id, leader_addr: self.address },
            SendPolicy::IgnoreError,
        );
        (RoleChange::NoChange, r)
    }

    /// Starts a Bully election at time `now` (see `election_outcome`); the
    /// leader stays leader whatever happens.
    pub fn start_election(&mut self, now: u64) -> (res: (RoleChange, Vec<NodeAction>))
        requires
            old(self).wf(),
        ensures
            final(self).wf(),
            res.0 == RoleChange::NoChange,
            (*final(self), actions_view(res.1@)) == old(self).election_outcome(now),
    {
        if self.election_in_progress {
            return (RoleChange::NoChange, Vec::new());
        }
        let higher = self.cluster.higher_than(self.id);
        if higher.len() > 0 {
            let r = broadcast(
                &higher,
                &Message::Election { candidate_id: self.id, candidate_addr: self.address },
                SendPolicy::IgnoreError,
            );
            self.election_in_progress = true;
            self.election_start = Some(now);
            (RoleChange::NoChange, r)
        } else {
            self.election_in_progress = false;
            self.election_start = None;
            self.anounce_coordinator()
        }
    }

    /// A candidate with a lower id gets `ElectionOk` and the leader starts
    /// its own election; a higher candidate is ignored.
    pub fn handle_election(&mut self, candidate_id: u64, candidate_addr: NodeAddr, now: u64) -> (res:
        (RoleChange, Vec<NodeAction>))
        requires
            old(self).wf(),
        ensures
            final(self).wf(),
            old(self).election_step(candidate_id, candidate_addr, now, *final(self), res.0, actions_view(res.1@)),
    {
        if self.id > candidate_id {
            let mut r: Vec<NodeAction> = Vec::new();
            let a = NodeAction::Send {
                to: candidate_addr,
                msg: Message::ElectionOk { responder_id: self.id },
                policy: SendPolicy::IgnoreError,
            };
            proof {
                lemma_actions_view_push(r@, a);
            }
            r.push(a);
            assert(actions_view(r@) =~= seq![r@[0]@]);
            let (rc, more) = self.start_election(now);
            append_actions(&mut r, more);
            (rc, r)
        } else {
            (RoleChange::NoChange, Vec::new())
        }
    }

    /// A higher node is alive: stop waiting for the election.
    pub fn handle_election_ok(&mut self, responder_id: u64)
        ensures
            *final(self) == old(self).with_election(false, None),
    {
        let _ = responder_id;
        self.election_in_progress = false;
        self.election_start = None;
    }

    /// A coordinator with an id at least the leader's own makes the leader a
    /// replica of it; the election ends either way.
    pub fn handle_coordinator(&mut self, leader_id: u64, leader_addr: NodeAddr) -> (rc: RoleChange)
        ensures
            old(self).coordinator_step(leader_id, leader_addr, *final(self), rc),
    {
        self.election_in_progress = false;
        self.election_start = None;
        if leader_id >= self.id {
            RoleChange::DemoteToReplica { new_leader_addr: leader_addr }
        } else {
            RoleChange::NoChange
        }
    }

    /// A node at `addr` (with id `addr_id`) joins: the leader collects a
    /// database snapshot for it, records it as a member and tells every
    /// other member about it.
    pub fn handle_join(&mut self, addr: NodeAddr, addr_id: u64) -> (r: Vec<NodeAction>)
        requires
            old(self).wf(),
        ensures
            final(self).wf(),
            old(self).join_step(addr, addr_id, *final(self), actions_view(r@)),
    {
        let mut r: Vec<NodeAction> = Vec::new();
        let a = NodeAction::Execute { op_id: 0, operation: Operation::GetDatabase { addr } };
        proof {
            lemma_actions_view_push(r@, a);
        }
        r.push(a);
        assert(actions_view(r@) =~= seq![r@[0]@]);
        self.cluster.insert(addr_id, addr);
        let targets = self.cluster.addrs_other_than2(self.address, addr);
        let more = broadcast(
            &targets,
            &Message::ClusterUpdate { new_member: (addr_id, addr) },
            SendPolicy::Propagate,
        );
        append_actions(&mut r, more);
        r
    }

    /// Only the leader sends cluster updates: one received is ignored.
    pub fn handle_cluster_update(&mut self, new_member: (u64, NodeAddr))
        ensures
            *final(self) == *old(self),
    {
        let _ = new_member;
    }

    /// The leader joined another cluster: it replaces its database with the
    /// snapshot, takes the members it was sent, and starts an election.
    pub fn handle_cluster_view(
        &mut self,
        members: Vec<(u64, NodeAddr)>,
        leader_addr: NodeAddr,
        snapshot: DatabaseSnapshot,
        now: u64,
    ) -> (r: Vec<NodeAction>)
        requires
            old(self).wf(),
        ensures
            final(self).wf(),
            old(self).cluster_view_step(members, snapshot, now, *final(self), actions_view(r@)),
    {
        let _ = leader_addr;
        let mut r: Vec<NodeAction> = Vec::new();
        let a = NodeAction::Execute { op_id: 0, operation: Operation::ReplaceDatabase { snapshot } };
        proof {
            lemma_actions_view_push(r@, a);
        }
        r.push(a);
        assert(actions_view(r@) =~= seq![r@[0]@]);
        self.cluster.reset_to(&members);
        let (_, more) = self.start_election(now);
        append_actions(&mut r, more);
        r
    }

    /// When an election has run for at least `ELECTION_TIMEOUT_MS` without
    /// an `ElectionOk`, the leader ends it and announces itself again.
    pub fn handle_election_timeout(&mut self, now: u64) -> (res: (RoleChange, Vec<NodeAction>))
        requires
            old(self).wf(),
        ensures
            final(self).wf(),
            old(self).timeout_step(now, *final(self), res.0, actions_view(res.1@)),
    {
        if !self.election_in_progress {
            return (RoleChange::NoChange, Vec::new());
        }
        match self.election_start {
            None => (RoleChange::NoChange, Vec::new()),
            Some(start) => {
                if has_timed_out(start, now) {
                    self.election_in_progress = false;
                    self.election_start = None;
                    let (_, r) = self.anounce_coordinator();
                    (RoleChange::NoChange, r)
                } else {
                    (RoleChange::NoChange, Vec::new())
                }
            },
        }
    }

    /// The connection to a node was lost: it leaves the member list.
    pub fn handle_connection_lost_with(&mut self, address_id: u64) -> (rc: RoleChange)
        requires
            old(self).wf(),
        ensures
            final(self).wf(),
            old(self).connection_lost_step(address_id, *final(self), rc),
    {
        let _ = self.cluster.remove(address_id);
        RoleChange::NoChange
    }

    /// Goes offline: every connection is closed.
    pub fn handle_disconnect_node(&mut self) -> (r: Vec<NodeAction>)
        ensures
            *final(self) == (Leader { is_offline: true, ..*old(self) }),
            actions_view(r@) == seq![ActionView::Disconnect],
    {
        self.is_offline = true;
        let mut r: Vec<NodeAction> = Vec::new();
        proof {
            lemma_actions_view_push(r@, NodeAction::Disconnect);
        }
        r.push(NodeAction::Disconnect);
        assert(actions_view(r@) =~= seq![ActionView::Disconnect]);
        r
    }

    /// Goes back online: the listener reopens and `Join` is sent to the
    /// other members in turn until one accepts it (a member that refuses
    /// gets a second try whose outcome is not checked); then the operations
    /// queued offline are executed, oldest first, as operations of the node
    /// itself (id 0).
    pub fn handle_connect_node(&mut self) -> (r: Vec<NodeAction>)
        requires
            old(self).wf(),
        ensures
            old(self).connect_step(*final(self), actions_view(r@)),
    {
        self.is_offline = false;
        let targets = self.cluster.addrs_other_than(self.address);
        let mut r: Vec<NodeAction> = Vec::new();
        r.push(NodeAction::Reconnect);
        r.push(NodeAction::JoinCluster { targets, addr: self.address, strict: false });
        assert(actions_view(r@) =~= seq![
            ActionView::Reconnect,
            ActionView::JoinCluster { targets: targets@, addr: self.address, strict: false },
        ]);
        let mut queued: Vec<Operation> = Vec::new();
        std::mem::swap(&mut queued, &mut self.offline_queue);
        let replayed = replay_actions(&queued);
        append_actions(&mut r, replayed);
        r
    }

    /// Answers a role query with the node's id (`own_id`, derived from its
    /// address) and the leader role.
    pub fn handle_role_query(&self, addr: NodeAddr, own_id: u64) -> (r: Vec<NodeAction>)
        ensures
            actions_view(r@) == seq![
                ActionView::Send {
                    to: addr,
                    msg: MessageView::RoleResponse { node_id: own_id, role: NodeRole::Leader },
                    policy: SendPolicy::Propagate,
                },
            ],
    {
        let mut r: Vec<NodeAction> = Vec::new();
        r.push(
            NodeAction::Send {
                to: addr,
                msg: Message::RoleResponse { node_id: own_id, role: NodeRole::Leader },
                policy: SendPolicy::Propagate,
            },
        );
        assert(actions_view(r@) =~= seq![r@[0]@]);
        r
    }
}

} // verus!
