//! The replica role: it stores the leader's log entries, commits each one
//! when the next arrives, acknowledges the leader, and forwards the local
//! station's requests to the leader.

use vstd::prelude::*;

use crate::address::NodeAddr;
use crate::node::cluster::{
    addrs_other_than, cluster_from, cluster_has, cluster_insert, drop_where, higher_than,
    peers_of, Cluster, Pick,
};
use crate::node::leader::{election_timed_out, has_timed_out, Leader};
use crate::node::messages::{
    actions_view, charge_reply, charge_reply_msg, sends_to, ActionView, Message, MessageView,
    NodeAction, NodeRole, RoleChange, SendPolicy,
};
use crate::node::sends::{append_actions, broadcast, lemma_actions_view_push};
use crate::node::table::KeyTable;
use crate::operation::{DatabaseSnapshot, Operation, OperationResult, OperationView};

verus! {

/// The replica's state.
pub struct Replica {
    pub id: u64,
    pub address: NodeAddr,
    pub leader_addr: NodeAddr,
    pub cluster: Cluster,
    /// Log entries received and not committed yet, by operation id.
    pub operations: KeyTable<Operation>,
    pub is_offline: bool,
    pub offline_queue: Vec<Operation>,
    pub election_in_progress: bool,
    /// When the running election started, in milliseconds.
    pub election_start: Option<u64>,
}

impl Replica {
    /// The member list has distinct ids and the log distinct keys.
    pub open spec fn wf(&self) -> bool {
        self.cluster.wf() && self.operations.wf()
    }

    /// The same state with another election state.
    pub open spec fn with_election(self, in_progress: bool, start: Option<u64>) -> Replica {
        Replica { election_in_progress: in_progress, election_start: start, ..self }
    }

    /// Whether an election is running and has timed out at `now`.
    pub open spec fn timeout_fires(self, now: u64) -> bool {
        self.election_in_progress && match self.election_start {
            Some(start) => election_timed_out(start, now),
            None => false,
        }
    }

    /// The `Coordinator` announcement to every other member.
    pub open spec fn announcement(self) -> Seq<ActionView> {
        sends_to(
            peers_of(self.cluster@, self.id),
            MessageView::Coordinator { leader_id: self.id, leader_addr: self.address },
            SendPolicy::IgnoreError,
        )
    }

    /// State, role change and actions after starting an election at `now`:
    /// when none is running, `Election` goes to every member with a higher
    /// id and the election waits for their answers; with no such member the
    /// replica announces itself and becomes leader.
    pub open spec fn election_outcome(self, now: u64) -> (Replica, RoleChange, Seq<ActionView>) {
        if self.election_in_progress {
            (self, RoleChange::NoChange, Seq::empty())
        } else {
            let higher = higher_than(self.cluster@, self.id);
            if higher.len() > 0 {
                (
                    self.with_election(true, Some(now)),
                    RoleChange::NoChange,
                    sends_to(
                        higher,
                        MessageView::Election { candidate_id: self.id, candidate_addr: self.address },
                        SendPolicy::IgnoreError,
                    ),
                )
            } else {
                (self.with_election(false, None), RoleChange::PromoteToLeader, self.announcement())
            }
        }
    }

    /// Losing the connection to `lost_address` (id `lost_id`): when that id
    /// is a member, every member at that address leaves the list; when it
    /// was the leader, an election starts.
    pub open spec fn connection_lost_step(
        self,
        lost_address: NodeAddr,
        lost_id: u64,
        now: u64,
        post: Replica,
        rc: RoleChange,
        acts: Seq<ActionView>,
    ) -> bool {
        let pruned = Replica { cluster: post.cluster, ..self };
        let (s, erc, election) = pruned.election_outcome(now);
        &&& cluster_has(self.cluster@, lost_id) ==> post.cluster@ == drop_where(
            self.cluster@,
            Pick::AddrIs(lost_address),
        )
        &&& !cluster_has(self.cluster@, lost_id) ==> post.cluster == self.cluster
        &&& lost_address == self.leader_addr ==> post == s && rc == erc && acts == election
        &&& lost_address != self.leader_addr ==> post == pruned && rc == RoleChange::NoChange
            && acts.len() == 0
    }

    /// Going back online: the listener reopens and `Join` is offered to the
    /// other members in turn; when a member refuses twice the error is
    /// reported.
    pub open spec fn connect_step(self, post: Replica, acts: Seq<ActionView>) -> bool {
        &&& post == (Replica { is_offline: false, ..self })
        &&& acts == seq![
            ActionView::Reconnect,
            ActionView::JoinCluster {
                targets: addrs_other_than(self.cluster@, self.address),
                addr: self.address,
                strict: true,
            },
        ]
    }

    /// Forwarding the oldest operation queued offline, as a request with id
    /// 0, followed by the next once the send succeeded.
    pub open spec fn drain_step(self, post: Replica, acts: Seq<ActionView>) -> bool {
        &&& self.offline_queue@.len() == 0 ==> post == self && acts.len() == 0
        &&& self.offline_queue@.len() > 0 ==> {
            &&& post == (Replica { offline_queue: post.offline_queue, ..self })
            &&& post.offline_queue@ == self.offline_queue@.drop_first()
            &&& acts == seq![
                ActionView::Send {
                    to: self.leader_addr,
                    msg: MessageView::Request {
                        req_id: 0,
                        op: self.offline_queue@[0]@,
                        addr: self.address,
                    },
                    policy: SendPolicy::Propagate,
                },
                ActionView::DrainOfflineQueue,
            ]
        }
    }

    /// Reacting to an executed operation: after a replacement the offline
    /// queue starts to drain; anything else is acknowledged to the leader
    /// as `Ack { op_id + 1 }`.
    pub open spec fn result_step(self, op_id: u32, operation: Operation, post: Replica, acts: Seq<
        ActionView,
    >) -> bool {
        &&& operation is ReplaceDatabase ==> self.drain_step(post, acts)
        &&& !(operation is ReplaceDatabase) ==> post == self && acts == seq![
            ActionView::Send {
                to: self.leader_addr,
                msg: MessageView::Ack { op_id: (op_id + 1) as u32 },
                policy: SendPolicy::Propagate,
            },
        ]
    }

    /// Storing log entry `op_id`: the first is acknowledged at once; a later
    /// one commits (executes and forgets) the entry before it, if logged.
    pub open spec fn log_step(self, op_id: u32, new_op: Operation, post: Replica, acts: Seq<
        ActionView,
    >) -> bool {
        let logged = self.operations@.insert(op_id, new_op);
        let prev = (op_id - 1) as u32;
        &&& post == (Replica { operations: post.operations, ..self })
        &&& op_id == 1 ==> post.operations@ == logged && acts == seq![
            ActionView::Send {
                to: self.leader_addr,
                msg: MessageView::Ack { op_id: 1 },
                policy: SendPolicy::Propagate,
            },
        ]
        &&& op_id > 1 ==> post.operations@ == logged.remove(prev)
        &&& op_id > 1 && logged.contains_key(prev) ==> acts == seq![
            ActionView::Execute { op_id: prev, operation: logged[prev]@ },
        ]
        &&& op_id > 1 && !logged.contains_key(prev) ==> acts.len() == 0
    }

    /// Answering a candidate: a lower candidate gets `ElectionOk` and the
    /// replica starts its own election; a higher one is ignored.
    pub open spec fn election_step(
        self,
        candidate_id: u64,
        candidate_addr: NodeAddr,
        now: u64,
        post: Replica,
        rc: RoleChange,
        acts: Seq<ActionView>,
    ) -> bool {
        let (s, erc, election) = self.election_outcome(now);
        &&& self.id > candidate_id ==> post == s && rc == erc && acts == seq![
            ActionView::Send {
                to: candidate_addr,
                msg: MessageView::ElectionOk { responder_id: self.id },
                policy: SendPolicy::IgnoreError,
            },
        ] + election
        &&& self.id <= candidate_id ==> post == self && rc == RoleChange::NoChange && acts.len()
            == 0
    }

    /// Receiving `Coordinator` from a node with an id at least its own: the
    /// election ends; its own id makes the replica leader, a higher one
    /// becomes its leader.
    pub open spec fn coordinator_step(
        self,
        leader_id: u64,
        leader_addr: NodeAddr,
        post: Replica,
        rc: RoleChange,
    ) -> bool {
        &&& leader_id == self.id ==> post == self.with_election(false, None) && rc
            == RoleChange::PromoteToLeader
        &&& leader_id > self.id ==> post == (Replica {
            leader_addr,
            ..self.with_election(false, None)
        }) && rc == RoleChange::NoChange
    }

    /// Recording a member announced by the leader.
    pub open spec fn cluster_update_step(self, new_member: (u64, NodeAddr), post: Replica) -> bool {
        &&& post == (Replica { cluster: post.cluster, ..self })
        &&& post.cluster@ == cluster_insert(self.cluster@, new_member.0, new_member.1)
    }

    /// Receiving the leader's answer to a join: the database is replaced by
    /// the snapshot, the members and the leader are those sent, and when
    /// the leader's id is above the replica's an election starts, its role
    /// change not acted on.
    pub open spec fn cluster_view_step(
        self,
        members: Vec<(u64, NodeAddr)>,
        leader_addr: NodeAddr,
        leader_id: u64,
        snapshot: DatabaseSnapshot,
        now: u64,
        post: Replica,
        acts: Seq<ActionView>,
    ) -> bool {
        let joined = Replica { cluster: post.cluster, leader_addr, ..self };
        let (s, erc, election) = joined.election_outcome(now);
        let first = seq![
            ActionView::Execute {
                op_id: 0,
                operation: OperationView::ReplaceDatabase { snapshot: snapshot@ },
            },
        ];
        &&& post.cluster@ == cluster_from(members@)
        &&& leader_id > self.id ==> post == s && acts == first + election
        &&& leader_id <= self.id ==> post == joined && acts == first
    }

    /// Checking the election at `now`: when it timed out, the replica
    /// announces itself and becomes leader; otherwise nothing happens.
    pub open spec fn timeout_step(self, now: u64, post: Replica, rc: RoleChange, acts: Seq<
        ActionView,
    >) -> bool {
        &&& self.timeout_fires(now) ==> post == self.with_election(false, None) && rc
            == RoleChange::PromoteToLeader && acts == self.announcement()
        &&& !self.timeout_fires(now) ==> post == self && rc == RoleChange::NoChange && acts.len()
            == 0
    }

    /// A replica of the leader at `leader_addr` (whose id is `leader_id`),
    /// which is its only known member.
    pub fn new(id: u64, address: NodeAddr, leader_addr: NodeAddr, leader_id: u64) -> (r: Replica)
        ensures
            r.wf(),
            r.id == id,
            r.address == address,
            r.leader_addr == leader_addr,
            r.cluster@ == seq![(leader_id, leader_addr)],
            r.operations@ == Map::<u32, Operation>::empty(),
            !r.is_offline,
            r.offline_queue@.len() == 0,
            !r.election_in_progress,
            r.election_start is None,
    {
        Replica {
            id,
            address,
            leader_addr,
            cluster: Cluster::single(leader_id, leader_addr),
            operations: KeyTable::new(),
            is_offline: false,
            offline_queue: Vec::new(),
            election_in_progress: false,
            election_start: None,
        }
    }

    /// The first message of a new replica: `Join` to its leader, whose
    /// failure is ignored.
    pub fn initial_join(&self) -> (r: Vec<NodeAction>)
        ensures
            actions_view(r@) == seq![
                ActionView::Send {
                    to: self.leader_addr,
                    msg: MessageView::Join { addr: self.address },
                    policy: SendPolicy::IgnoreError,
                },
            ],
    {
        let mut r: Vec<NodeAction> = Vec::new();
        r.push(
            NodeAction::Send {
                to: self.leader_addr,
                msg: Message::Join { addr: self.address },
                policy: SendPolicy::IgnoreError,
            },
        );
        assert(actions_view(r@) =~= seq![r@[0]@]);
        r
    }

    /// A replica built from the state of a node that was the leader.
    pub fn from_existing(
        id: u64,
        address: NodeAddr,
        leader_addr: NodeAddr,
        members: Cluster,
        operations: KeyTable<Operation>,
        is_offline: bool,
        offline_queue: Vec<Operation>,
    ) -> (r: Replica)
        requires
            members.wf(),
            operations.wf(),
        ensures
            r.wf(),
            r.id == id,
            r.address == address,
            r.leader_addr == leader_addr,
            r.cluster == members,
            r.operations == operations,
            r.is_offline == is_offline,
            r.offline_queue == offline_queue,
            !r.election_in_progress,
            r.election_start is None,
    {
        Replica {
            id,
            address,
            leader_addr,
            cluster: members,
            operations,
            is_offline,
            offline_queue,
            election_in_progress: false,
            election_start: None,
        }
    }

    /// Turns this replica into the leader; its operation ids go on from the
    /// highest logged one, or from 1.
    pub fn into_leader(self) -> (l: Leader)
        requires
            self.wf(),
        ensures
            l.wf(),
            l.id == self.id,
            l.address == self.address,
            l.cluster == self.cluster,
            l.operations@ == Map::<u32, crate::node::leader::PendingOperation>::empty(),
            l.is_offline == self.is_offline,
            l.offline_queue == self.offline_queue,
            !l.election_in_progress,
            l.election_start is None,
            self.operations@.dom() == Set::<u32>::empty() ==> l.current_op_id == 1,
            self.operations@.dom() != Set::<u32>::empty() ==> self.operations@.contains_key(
                l.current_op_id,
            ) && forall|k: u32| #[trigger] self.operations@.contains_key(k) ==> k
                <= l.current_op_id,
    {
        let current_op_id = match self.operations.max_key() {
            Some(m) => m,
            None => 1,
        };
        Leader::from_existing(
            self.id,
            current_op_id,
            self.address,
            self.cluster,
            self.operations,
            self.is_offline,
            self.offline_queue,
        )
    }

    /// Whether the node is offline.
    pub fn is_offline(&self) -> (b: bool)
        ensures
            b == self.is_offline,
    {
        self.is_offline
    }

    /// The node's own address.
    pub fn get_address(&self) -> (a: NodeAddr)
        ensures
            a == self.address,
    {
        self.address
    }

    /// The number of members.
    pub fn cluster_len(&self) -> (n: usize)
        ensures
            n == self.cluster@.len(),
    {
        self.cluster.len()
    }

    /// The leader's address.
    pub fn get_leader_addr(&self) -> (a: NodeAddr)
        ensures
            a == self.leader_addr,
    {
        self.leader_addr
    }

    /// Queues an operation received while offline.
    pub fn log_offline_operation(&mut self, op: Operation)
        ensures
            *final(self) == (Replica { offline_queue: final(self).offline_queue, ..*old(self) }),
            final(self).offline_queue@ == old(self).offline_queue@.push(op),
    {
        self.offline_queue.push(op);
    }

    /// Sends `Coordinator` to every other member and becomes leader.
    pub fn anounce_coordinator(&mut self) -> (res: (RoleChange, Vec<NodeAction>))
        requires
            old(self).wf(),
        ensures
            final(self).wf(),
            *final(self) == old(self).with_election(false, None),
            res.0 == RoleChange::PromoteToLeader,
            actions_view(res.1@) == old(self).announcement(),
    {
        let peers = self.cluster.peers_of(self.id);
        let r = broadcast(
            &peers,
            &Message::Coordinator { leader_id: self.id, leader_addr: self.address },
            SendPolicy::IgnoreError,
        );
        let rc = self.handle_coordinator(self.id, self.address);
        (rc, r)
    }

    /// Starts a Bully election at time `now` (see `election_outcome`).
    pub fn start_election(&mut self, now: u64) -> (res: (RoleChange, Vec<NodeAction>))
        requires
            old(self).wf(),
        ensures
            final(self).wf(),
            (*final(self), res.0, actions_view(res.1@)) == old(self).election_outcome(now),
    {
        if self.election_in_progress {
            return (RoleChange::NoChange, Vec::new());
        }
        let higher = self.cluster.higher_than(self.id);
        if higher.len() > 0 {
            let r = broadcast(
                &higher,
                &Message::Election { candidate_id: self.id, candidate_addr: self.address },
                SendPolicy::IgnoreError,
            );
            self.election_in_progress = true;
            self.election_start = Some(now);
            (RoleChange::NoChange, r)
        } else {
            self.election_in_progress = false;
            self.election_start = None;
            self.anounce_coordinator()
        }
    }

    /// The connection to the node at `lost_address` (whose id is `lost_id`)
    /// was lost: when that id is a member, every member at that address
    /// leaves the list; when it was the leader, an election starts.
    pub fn handle_connection_lost_with(
        &mut self,
        lost_address: NodeAddr,
        lost_id: u64,
        now: u64,
    ) -> (res: (RoleChange, Vec<NodeAction>))
        requires
            old(self).wf(),
        ensures
            final(self).wf(),
            old(self).connection_lost_step(lost_address, lost_id, now, *final(self), res.0, actions_view(res.1@)),
    {
        if self.cluster.contains_key(lost_id) {
            self.cluster.retain_addr_ne(lost_address);
        }
        if lost_address == self.leader_addr {
            return self.start_election(now);
        }
        (RoleChange::NoChange, Vec::new())
    }

    /// Goes offline: every connection is closed.
    pub fn handle_disconnect_node(&mut self) -> (r: Vec<NodeAction>)
        ensures
            *final(self) == (Replica { is_offline: true, ..*old(self) }),
            actions_view(r@) == seq![ActionView::Disconnect],
    {
        self.is_offline = true;
        let mut r: Vec<NodeAction> = Vec::new();
        r.push(NodeAction::Disconnect);
        assert(actions_view(r@) =~= seq![ActionView::Disconnect]);
        r
    }

    /// Goes back online: the listener reopens and `Join` is sent to the
    /// other members in turn until one accepts it; a member that refuses
    /// gets a second try, and when that fails too the error is reported.
    pub fn handle_connect_node(&mut self) -> (r: Vec<NodeAction>)
        requires
            old(self).wf(),
        ensures
            old(self).connect_step(*final(self), actions_view(r@)),
    {
        self.is_offline = false;
        let targets = self.cluster.addrs_other_than(self.address);
        let mut r: Vec<NodeAction> = Vec::new();
        r.push(NodeAction::Reconnect);
        r.push(NodeAction::JoinCluster { targets, addr: self.address, strict: true });
        assert(actions_view(r@) =~= seq![
            ActionView::Reconnect,
            ActionView::JoinCluster { targets: targets@, addr: self.address, strict: true },
        ]);
        r
    }

    /// Forwards a request to the leader.
    pub fn handle_request(&self, req_id: u32, op: Operation, addr: NodeAddr) -> (r: Vec<NodeAction>)
        ensures
            actions_view(r@) == seq![
                ActionView::Send {
                    to: self.leader_addr,
                    msg: MessageView::Request { req_id, op: op@, addr },
                    policy: SendPolicy::Propagate,
                },
            ],
    {
        let mut r: Vec<NodeAction> = Vec::new();
        r.push(
            NodeAction::Send {
                to: self.leader_addr,
                msg: Message::Request { req_id, op, addr },
                policy: SendPolicy::Propagate,
            },
        );
        assert(actions_view(r@) =~= seq![r@[0]@]);
        r
    }

    /// Takes the oldest operation queued while offline and forwards it to
    /// the leader as a request with id 0, to be followed by the next one
    /// once the send succeeded.
    pub fn drain_offline_step(&mut self) -> (r: Vec<NodeAction>)
        ensures
            old(self).drain_step(*final(self), actions_view(r@)),
    {
        if self.offline_queue.len() == 0 {
            return Vec::new();
        }
        let op = self.offline_queue.remove(0);
        let ghost opv = op@;
        assert(self.offline_queue@ =~= old(self).offline_queue@.drop_first());
        let mut r = self.handle_request(0, op, self.address);
        proof {
            lemma_actions_view_push(r@, NodeAction::DrainOfflineQueue);
        }
        r.push(NodeAction::DrainOfflineQueue);
        assert(actions_view(r@) =~= seq![
            ActionView::Send {
                to: old(self).leader_addr,
                msg: MessageView::Request { req_id: 0, op: opv, addr: old(self).address },
                policy: SendPolicy::Propagate,
            },
            ActionView::DrainOfflineQueue,
        ]);
        r
    }

    /// Whether `handle_operation_result` accepts a result with this id: the
    /// acknowledgement of the next id must fit in a `u32`, unless the
    /// operation replaced the database.
    pub open spec fn result_expected(op_id: u32, operation: Operation) -> bool {
        operation is ReplaceDatabase || op_id < u32::MAX
    }

    /// Reacts to an executed operation: after a database replacement the
    /// operations queued offline go to the leader; any other operation is
    /// acknowledged to the leader as `Ack { op_id + 1 }`.
    pub fn handle_operation_result(
        &mut self,
        op_id: u32,
        operation: Operation,
        result: OperationResult,
    ) -> (r: Vec<NodeAction>)
        requires
            Self::result_expected(op_id, operation),
        ensures
            old(self).result_step(op_id, operation, *final(self), actions_view(r@)),
    {
        let _ = result;
        match operation {
            Operation::ReplaceDatabase { .. } => self.drain_offline_step(),
            _ => {
                let mut r: Vec<NodeAction> = Vec::new();
                r.push(
                    NodeAction::Send {
                        to: self.leader_addr,
                        msg: Message::Ack { op_id: op_id + 1 },
                        policy: SendPolicy::Propagate,
                    },
                );
                assert(actions_view(r@) =~= seq![r@[0]@]);
                r
            },
        }
    }

    /// The answer to a request this replica forwarded: a charge outcome goes
    /// to the station unless the request id is 0 (an operation queued
    /// offline); any other answer is dropped.
    pub fn handle_response(&self, req_id: u32, op_result: OperationResult) -> (r: Vec<NodeAction>)
        ensures
            req_id != 0 ==> match op_result {
                OperationResult::Charge(cr) => actions_view(r@) == seq![
                    ActionView::ToStation { msg: charge_reply(req_id, cr), propagate: true },
                ],
                _ => r@.len() == 0,
            },
            req_id == 0 ==> r@.len() == 0,
    {
        let mut r: Vec<NodeAction> = Vec::new();
        if req_id == 0 {
            return r;
        }
        match op_result {
            OperationResult::Charge(cr) => {
                r.push(NodeAction::ToStation { msg: charge_reply_msg(req_id, cr), propagate: true });
                assert(actions_view(r@) =~= seq![r@[0]@]);
            },
            _ => {},
        }
        r
    }

    /// Answers a role query with the node's id (`own_id`, derived from its
    /// address) and the replica role.
    pub fn handle_role_query(&self, addr: NodeAddr, own_id: u64) -> (r: Vec<NodeAction>)
        ensures
            actions_view(r@) == seq![
                ActionView::Send {
                    to: addr,
                    msg: MessageView::RoleResponse { node_id: own_id, role: NodeRole::Replica },
                    policy: SendPolicy::Propagate,
                },
            ],
    {
        let mut r: Vec<NodeAction> = Vec::new();
        r.push(
            NodeAction::Send {
                to: addr,
                msg: Message::RoleResponse { node_id: own_id, role: NodeRole::Replica },
                policy: SendPolicy::Propagate,
            },
        );
        assert(actions_view(r@) =~= seq![r@[0]@]);
        r
    }

    /// Executes the logged operation with this id, if it is still logged,
    /// and forgets it.
    pub fn commit_operation(&mut self, op_id: u32) -> (r: Vec<NodeAction>)
        requires
            old(self).wf(),
        ensures
            final(self).wf(),
            *final(self) == (Replica { operations: final(self).operations, ..*old(self) }),
            final(self).operations@ == old(self).operations@.remove(op_id),
            old(self).operations@.contains_key(op_id) ==> actions_view(r@) == seq![
                ActionView::Execute { op_id, operation: old(self).operations@[op_id]@ },
            ],
            !old(self).operations@.contains_key(op_id) ==> r@.len() == 0,
    {
        let mut r: Vec<NodeAction> = Vec::new();
        match self.operations.remove(op_id) {
            Some(op) => {
                r.push(NodeAction::Execute { op_id, operation: op });
                assert(actions_view(r@) =~= seq![r@[0]@]);
            },
            None => {},
        }
        r
    }

    /// Stores a log entry. The first entry is acknowledged at once; any
    /// later one commits the entry before it.
    pub fn handle_log(&mut self, op_id: u32, new_op: Operation) -> (r: Vec<NodeAction>)
        requires
            old(self).wf(),
            op_id >= 1,
        ensures
            final(self).wf(),
            old(self).log_step(op_id, new_op, *final(self), actions_view(r@)),
    {
        self.operations.insert(op_id, new_op);
        if op_id == 1 {
            let mut r: Vec<NodeAction> = Vec::new();
            r.push(
                NodeAction::Send {
                    to: self.leader_addr,
                    msg: Message::Ack { op_id: 1 },
                    policy: SendPolicy::Propagate,
                },
            );
            assert(actions_view(r@) =~= seq![r@[0]@]);
            return r;
        }
        self.commit_operation(op_id - 1)
    }

    /// A candidate with a lower id gets `ElectionOk` and the replica starts
    /// its own election; a higher candidate is ignored.
    pub fn handle_election(&mut self, candidate_id: u64, candidate_addr: NodeAddr, now: u64) -> (res:
        (RoleChange, Vec<NodeAction>))
        requires
            old(self).wf(),
        ensures
            final(self).wf(),
            old(self).election_step(candidate_id, candidate_addr, now, *final(self), res.0, actions_view(res.1@)),
    {
        if self.id > candidate_id {
            let mut r: Vec<NodeAction> = Vec::new();
            let a = NodeAction::Send {
                to: candidate_addr,
                msg: Message::ElectionOk { responder_id: self.id },
                policy: SendPolicy::IgnoreError,
            };
            proof {
                lemma_actions_view_push(r@, a);
            }
            r.push(a);
            assert(actions_view(r@) =~= seq![r@[0]@]);
            let (rc, more) = self.start_election(now);
            append_actions(&mut r, more);
            (rc, r)
        } else {
            (RoleChange::NoChange, Vec::new())
        }
    }

    /// A higher node is alive: stop waiting to take the lead.
    pub fn handle_election_ok(&mut self, responder_id: u64)
        ensures
            *final(self) == old(self).with_election(false, None),
    {
        let _ = responder_id;
        self.election_in_progress = false;
        self.election_start = None;
    }

    /// A coordinator announcement ends the election: the replica's own id
    /// makes it leader; a higher id becomes its leader.
    pub fn handle_coordinator(&mut self, leader_id: u64, leader_addr: NodeAddr) -> (rc: RoleChange)
        requires
            leader_id >= old(self).id,
        ensures
            old(self).coordinator_step(leader_id, leader_addr, *final(self), rc),
    {
        self.election_in_progress = false;
        self.election_start = None;
        if leader_id == self.id {
            return RoleChange::PromoteToLeader;
        }
        self.leader_addr = leader_addr;
        RoleChange::NoChange
    }

    /// A join request reaching a replica is passed on to the leader.
    pub fn handle_join(&self, addr: NodeAddr) -> (r: Vec<NodeAction>)
        ensures
            actions_view(r@) == seq![
                ActionView::Send {
                    to: self.leader_addr,
                    msg: MessageView::Join { addr },
                    policy: SendPolicy::Propagate,
                },
            ],
    {
        let mut r: Vec<NodeAction> = Vec::new();
        r.push(
            NodeAction::Send {
                to: self.leader_addr,
                msg: Message::Join { addr },
                policy: SendPolicy::Propagate,
            },
        );
        assert(actions_view(r@) =~= seq![r@[0]@]);
        r
    }

    /// Records a new member announced by the leader.
    pub fn handle_cluster_update(&mut self, new_member: (u64, NodeAddr))
        requires
            old(self).wf(),
        ensures
            final(self).wf(),
            old(self).cluster_update_step(new_member, *final(self)),
    {
        self.cluster.insert(new_member.0, new_member.1);
    }

    /// The leader's answer to a join: the replica replaces its database with
    /// the snapshot, takes the members and the leader it was sent, and,
    /// when the leader's id (`leader_id`) is above its own, starts an
    /// election whose role change is not acted on.
    pub fn handle_cluster_view(
        &mut self,
        members: Vec<(u64, NodeAddr)>,
        leader_addr: NodeAddr,
        leader_id: u64,
        snapshot: DatabaseSnapshot,
        now: u64,
    ) -> (r: Vec<NodeAction>)
        requires
            old(self).wf(),
        ensures
            final(self).wf(),
            old(self).cluster_view_step(members, leader_addr, leader_id, snapshot, now, *final(self), actions_view(r@)),
    {
        let mut r: Vec<NodeAction> = Vec::new();
        r.push(
            NodeAction::Execute { op_id: 0, operation: Operation::ReplaceDatabase { snapshot } },
        );
        assert(actions_view(r@) =~= seq![r@[0]@]);
        self.cluster.reset_to(&members);
        self.leader_addr = leader_addr;
        if leader_id > self.id {
            let (_, more) = self.start_election(now);
            append_actions(&mut r, more);
        }
        r
    }

    /// When an election has run for at least the timeout without an
    /// `ElectionOk`, the replica announces itself and becomes leader.
    pub fn handle_election_timeout(&mut self, now: u64) -> (res: (RoleChange, Vec<NodeAction>))
        requires
            old(self).wf(),
        ensures
            final(self).wf(),
            old(self).timeout_step(now, *final(self), res.0, actions_view(res.1@)),
    {
        if !self.election_in_progress {
            return (RoleChange::NoChange, Vec::new());
        }
        match self.election_start {
            None => (RoleChange::NoChange, Vec::new()),
            Some(start) => {
                if has_timed_out(start, now) {
                    self.election_in_progress = false;
                    self.election_start = None;
                    self.anounce_coordinator()
                } else {
                    (RoleChange::NoChange, Vec::new())
                }
            },
        }
    }
}

} // verus!
