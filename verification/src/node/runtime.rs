//! A node in either role: dispatching node messages, station messages,
//! database events and timer ticks to the role's handlers, and switching
//! roles.

use vstd::prelude::*;

use crate::actors::messages::ActorEvent;
use crate::address::NodeAddr;
use crate::errors::AppError;
use crate::node::leader::Leader;
use crate::node::messages::{
    actions_view, charge_reply, ActionView, Message, MessageView, NodeAction, NodeRole,
    NodeToStationMsg, RoleChange, SendPolicy, StationToNodeMsg,
};
use crate::node::replica::Replica;
use crate::node::sends::lemma_actions_view_push;
use crate::operation::{Operation, OperationResult};

verus! {

/// A node in its current role.
pub enum NodeRuntime {
    Leader(Leader),
    Replica(Replica),
}

/// What the runtime does after a handler reported an error.
#[derive(Clone, Copy, Debug, PartialEq, Eq, Structural)]
pub enum ErrorOutcome {
    /// The connection to this node was lost: tell the role.
    LostWith(NodeAddr),
    /// Go on with the next event.
    Continue,
    /// Stop the node with the error.
    Stop,
}

/// The runtime's reaction to a handler's error: a lost connection to a known
/// peer is handed to the role, a lost or refused connection is skipped, and
/// anything else stops the node.
pub open spec fn error_outcome(e: AppError) -> ErrorOutcome {
    match e {
        AppError::ConnectionLostWith { address } => ErrorOutcome::LostWith(address),
        AppError::ConnectionLost => ErrorOutcome::Continue,
        AppError::ConnectionRefused { .. } => ErrorOutcome::Continue,
        _ => ErrorOutcome::Stop,
    }
}

/// Classifies a handler's error (see `error_outcome`).
pub fn classify_error(e: AppError) -> (o: ErrorOutcome)
    ensures
        o == error_outcome(e),
{
    match e {
        AppError::ConnectionLostWith { address } => ErrorOutcome::LostWith(address),
        AppError::ConnectionLost => ErrorOutcome::Continue,
        AppError::ConnectionRefused { .. } => ErrorOutcome::Continue,
        _ => ErrorOutcome::Stop,
    }
}

/// The actions that answer a role query from `addr`.
pub open spec fn role_answer(addr: NodeAddr, own_id: u64, role: NodeRole) -> Seq<ActionView> {
    seq![
        ActionView::Send {
            to: addr,
            msg: MessageView::RoleResponse { node_id: own_id, role },
            policy: SendPolicy::Propagate,
        },
    ]
}

impl NodeRuntime {
    /// The role's state is well formed.
    pub open spec fn wf(&self) -> bool {
        match self {
            NodeRuntime::Leader(l) => l.wf(),
            NodeRuntime::Replica(r) => r.wf(),
        }
    }

    /// Whether the role handles this node message: a leader takes no
    /// `Response`, `Log` or `RoleResponse`, and an acknowledgement only when
    /// `handle_ack` allows it; a replica takes no `Ack` or `RoleResponse`, no
    /// log entry with id 0, and no coordinator with an id below its own.
    pub open spec fn accepts(&self, msg: Message) -> bool {
        match self {
            NodeRuntime::Leader(l) => match msg {
                Message::Response { .. } => false,
                Message::Log { .. } => false,
                Message::RoleResponse { .. } => false,
                Message::Ack { op_id } => l.ack_allowed(op_id),
                _ => true,
            },
            NodeRuntime::Replica(r) => match msg {
                Message::Ack { .. } => false,
                Message::RoleResponse { .. } => false,
                Message::Log { op_id, .. } => op_id >= 1,
                Message::Coordinator { leader_id, .. } => leader_id >= r.id,
                _ => true,
            },
        }
    }

    /// Checks `accepts`.
    pub fn accepts_message(&self, msg: &Message) -> (b: bool)
        requires
            self.wf(),
        ensures
            b == self.accepts(*msg),
    {
        match self {
            NodeRuntime::Leader(l) => match msg {
                Message::Response { .. } => false,
                Message::Log { .. } => false,
                Message::RoleResponse { .. } => false,
                Message::Ack { op_id } => l.can_handle_ack(*op_id),
                _ => true,
            },
            NodeRuntime::Replica(r) => match msg {
                Message::Ack { .. } => false,
                Message::RoleResponse { .. } => false,
                Message::Log { op_id, .. } => *op_id >= 1,
                Message::Coordinator { leader_id, .. } => *leader_id >= r.id,
                _ => true,
            },
        }
    }

    /// The role's handling of a node message at time `now`; `addr_id` is the
    /// id derived from the address the message carries (the joining node's,
    /// or the leader's in a cluster view) and `own_id` the one derived from
    /// the node's own address.
    pub open spec fn node_msg_step(
        self,
        msg: Message,
        now: u64,
        addr_id: u64,
        own_id: u64,
        post: NodeRuntime,
        rc: RoleChange,
        acts: Seq<ActionView>,
    ) -> bool {
        match (self, post) {
            (NodeRuntime::Leader(l), NodeRuntime::Leader(p)) => match msg {
                Message::Request { req_id, op, addr } => rc == RoleChange::NoChange
                    && l.request_step(req_id, op, addr, p, acts),
                Message::Ack { op_id } => rc == RoleChange::NoChange && l.ack_step(op_id, p, acts),
                Message::Election { candidate_id, candidate_addr } => l.election_step(
                    candidate_id,
                    candidate_addr,
                    now,
                    p,
                    rc,
                    acts,
                ),
                Message::ElectionOk { .. } => rc == RoleChange::NoChange && p == l.with_election(
                    false,
                    None,
                ) && acts.len() == 0,
                Message::Coordinator { leader_id, leader_addr } => l.coordinator_step(
                    leader_id,
                    leader_addr,
                    p,
                    rc,
                ) && acts.len() == 0,
                Message::Join { addr } => rc == RoleChange::NoChange && l.join_step(
                    addr,
                    addr_id,
                    p,
                    acts,
                ),
                Message::ClusterView { members, database, .. } => rc == RoleChange::NoChange
                    && l.cluster_view_step(members, database, now, p, acts),
                Message::ClusterUpdate { .. } => rc == RoleChange::NoChange && p == l && acts.len()
                    == 0,
                Message::RoleQuery { addr } => rc == RoleChange::NoChange && p == l && acts
                    == role_answer(addr, own_id, NodeRole::Leader),
                _ => false,
            },
            (NodeRuntime::Replica(r), NodeRuntime::Replica(p)) => match msg {
                Message::Request { req_id, op, addr } => rc == RoleChange::NoChange && p == r && acts
                    == seq![
                    ActionView::Send {
                        to: r.leader_addr,
                        msg: MessageView::Request { req_id, op: op@, addr },
                        policy: SendPolicy::Propagate,
                    },
                ],
                Message::Log { op_id, op } => rc == RoleChange::NoChange && r.log_step(
                    op_id,
                    op,
                    p,
                    acts,
                ),
                Message::Election { candidate_id, candidate_addr } => r.election_step(
                    candidate_id,
                    candidate_addr,
                    now,
                    p,
                    rc,
                    acts,
                ),
                Message::ElectionOk { .. } => rc == RoleChange::NoChange && p == r.with_election(
                    false,
                    None,
                ) && acts.len() == 0,
                Message::Coordinator { leader_id, leader_addr } => r.coordinator_step(
                    leader_id,
                    leader_addr,
                    p,
                    rc,
                ) && acts.len() == 0,
                Message::Join { addr } => rc == RoleChange::NoChange && p == r && acts == seq![
                    ActionView::Send {
                        to: r.leader_addr,
                        msg: MessageView::Join { addr },
                        policy: SendPolicy::Propagate,
                    },
                ],
                Message::ClusterView { members, leader_addr, database } => rc
                    == RoleChange::NoChange && r.cluster_view_step(
                    members,
                    leader_addr,
                    addr_id,
                    database,
                    now,
                    p,
                    acts,
                ),
                Message::ClusterUpdate { new_member } => rc == RoleChange::NoChange
                    && r.cluster_update_step(new_member, p) && acts.len() == 0,
                Message::Response { req_id, op_result } => rc == RoleChange::NoChange && p == r && (
                if req_id != 0 {
                    match op_result {
                        OperationResult::Charge(cr) => acts == seq![
                            ActionView::ToStation {
                                msg: charge_reply(req_id, cr),
                                propagate: true,
                            },
                        ],
                        _ => acts.len() == 0,
                    }
                } else {
                    acts.len() == 0
                }),
                Message::RoleQuery { addr } => rc == RoleChange::NoChange && p == r && acts
                    == role_answer(addr, own_id, NodeRole::Replica),
                _ => false,
            },
            _ => false,
        }
    }

    /// Dispatches a node message to the role's handler (see `node_msg_step`).
    pub fn handle_node_msg(self, msg: Message, now: u64, addr_id: u64, own_id: u64) -> (res: (
        NodeRuntime,
        RoleChange,
        Vec<NodeAction>,
    ))
        requires
            self.wf(),
            self.accepts(msg),
        ensures
            res.0.wf(),
            self.node_msg_step(msg, now, addr_id, own_id, res.0, res.1, actions_view(res.2@)),
    {
        match self {
            NodeRuntime::Leader(l) => {
                let mut l = l;
                match msg {
                    Message::Request { req_id, op, addr } => {
                        let r = l.handle_request(req_id, op, addr);
                        (NodeRuntime::Leader(l), RoleChange::NoChange, r)
                    },
                    Message::Ack { op_id } => {
                        let r = l.handle_ack(op_id);
                        (NodeRuntime::Leader(l), RoleChange::NoChange, r)
                    },
                    Message::Election { candidate_id, candidate_addr } => {
                        let (rc, r) = l.handle_election(candidate_id, candidate_addr, now);
                        (NodeRuntime::Leader(l), rc, r)
                    },
                    Message::ElectionOk { responder_id } => {
                        l.handle_election_ok(responder_id);
                        (NodeRuntime::Leader(l), RoleChange::NoChange, Vec::new())
                    },
                    Message::Coordinator { leader_id, leader_addr } => {
                        let rc = l.handle_coordinator(leader_id, leader_addr);
                        (NodeRuntime::Leader(l), rc, Vec::new())
                    },
                    Message::Join { addr } => {
                        let r = l.handle_join(addr, addr_id);
                        (NodeRuntime::Leader(l), RoleChange::NoChange, r)
                    },
                    Message::ClusterView { members, leader_addr, database } => {
                        let r = l.handle_cluster_view(members, leader_addr, database, now);
                        (NodeRuntime::Leader(l), RoleChange::NoChange, r)
                    },
                    Message::ClusterUpdate { new_member } => {
                        l.handle_cluster_update(new_member);
                        (NodeRuntime::Leader(l), RoleChange::NoChange, Vec::new())
                    },
                    Message::RoleQuery { addr } => {
                        let r = l.handle_role_query(addr, own_id);
                        (NodeRuntime::Leader(l), RoleChange::NoChange, r)
                    },
                    _ => (NodeRuntime::Leader(l), RoleChange::NoChange, Vec::new()),
                }
            },
            NodeRuntime::Replica(rep) => {
                let mut rep = rep;
                match msg {
                    Message::Request { req_id, op, addr } => {
                        let r = rep.handle_request(req_id, op, addr);
                        (NodeRuntime::Replica(rep), RoleChange::NoChange, r)
                    },
                    Message::Log { op_id, op } => {
                        let r = rep.handle_log(op_id, op);
                        (NodeRuntime::Replica(rep), RoleChange::NoChange, r)
                    },
                    Message::Election { candidate_id, candidate_addr } => {
                        let (rc, r) = rep.handle_election(candidate_id, candidate_addr, now);
                        (NodeRuntime::Replica(rep), rc, r)
                    },
                    Message::ElectionOk { responder_id } => {
                        rep.handle_election_ok(responder_id);
                        (NodeRuntime::Replica(rep), RoleChange::NoChange, Vec::new())
                    },
                    Message::Coordinator { leader_id, leader_addr } => {
                        let rc = rep.handle_coordinator(leader_id, leader_addr);
                        (NodeRuntime::Replica(rep), rc, Vec::new())
                    },
                    Message::Join { addr } => {
                        let r = rep.handle_join(addr);
                        (NodeRuntime::Replica(rep), RoleChange::NoChange, r)
                    },
                    Message::ClusterView { members, leader_addr, database } => {
                        let r = rep.handle_cluster_view(members, leader_addr, addr_id, database, now);
                        (NodeRuntime::Replica(rep), RoleChange::NoChange, r)
                    },
                    Message::ClusterUpdate { new_member } => {
                        rep.handle_cluster_update(new_member);
                        (NodeRuntime::Replica(rep), RoleChange::NoChange, Vec::new())
                    },
                    Message::Response { req_id, op_result } => {
                        let r = rep.handle_response(req_id, op_result);
                        (NodeRuntime::Replica(rep), RoleChange::NoChange, r)
                    },
                    Message::RoleQuery { addr } => {
                        let r = rep.handle_role_query(addr, own_id);
                        (NodeRuntime::Replica(rep), RoleChange::NoChange, r)
                    },
                    _ => (NodeRuntime::Replica(rep), RoleChange::NoChange, Vec::new()),
                }
            },
        }
    }

    /// The node's own address.
    pub open spec fn address(self) -> NodeAddr {
        match self {
            NodeRuntime::Leader(l) => l.address,
            NodeRuntime::Replica(r) => r.address,
        }
    }

    /// Whether the node is offline.
    pub open spec fn offline(self) -> bool {
        match self {
            NodeRuntime::Leader(l) => l.is_offline,
            NodeRuntime::Replica(r) => r.is_offline,
        }
    }

    /// The role's handling of a request that it takes on its own behalf.
    pub open spec fn request_step(
        self,
        req_id: u32,
        op: Operation,
        addr: NodeAddr,
        post: NodeRuntime,
        acts: Seq<ActionView>,
    ) -> bool {
        match (self, post) {
            (NodeRuntime::Leader(l), NodeRuntime::Leader(p)) => l.request_step(
                req_id,
                op,
                addr,
                p,
                acts,
            ),
            (NodeRuntime::Replica(r), NodeRuntime::Replica(p)) => p == r && acts == seq![
                ActionView::Send {
                    to: r.leader_addr,
                    msg: MessageView::Request { req_id, op: op@, addr },
                    policy: SendPolicy::Propagate,
                },
            ],
            _ => false,
        }
    }

    /// The role with this operation queued offline.
    pub open spec fn queued_step(self, op: Operation, post: NodeRuntime) -> bool {
        match (self, post) {
            (NodeRuntime::Leader(l), NodeRuntime::Leader(p)) => p == (Leader {
                offline_queue: p.offline_queue,
                ..l
            }) && p.offline_queue@ == l.offline_queue@.push(op),
            (NodeRuntime::Replica(r), NodeRuntime::Replica(p)) => p == (Replica {
                offline_queue: p.offline_queue,
                ..r
            }) && p.offline_queue@ == r.offline_queue@.push(op),
            _ => false,
        }
    }

    /// The role's handling of a station message: offline, a charge is queued
    /// (marked as coming from an offline station) and approved at once, the
    /// station's failure to receive that approval being ignored; online, it
    /// becomes a request of the node itself. `DisconnectNode` and
    /// `ConnectNode` switch the node offline and online.
    pub open spec fn station_step(self, msg: StationToNodeMsg, post: NodeRuntime, acts: Seq<
        ActionView,
    >) -> bool {
        match msg {
            StationToNodeMsg::ChargeRequest { account_id, card_id, amount, request_id } => {
                if self.offline() {
                    &&& self.queued_step(
                        Operation::Charge { account_id, card_id, amount, from_offline_station: true },
                        post,
                    )
                    &&& acts == seq![
                        ActionView::ToStation {
                            msg: NodeToStationMsg::ChargeResult {
                                request_id,
                                allowed: true,
                                error: None,
                            },
                            propagate: false,
                        },
                    ]
                } else {
                    self.request_step(
                        request_id,
                        Operation::Charge {
                            account_id,
                            card_id,
                            amount,
                            from_offline_station: false,
                        },
                        self.address(),
                        post,
                        acts,
                    )
                }
            },
            StationToNodeMsg::DisconnectNode => acts == seq![ActionView::Disconnect] && (
            match (self, post) {
                (NodeRuntime::Leader(l), NodeRuntime::Leader(p)) => p == (Leader {
                    is_offline: true,
                    ..l
                }),
                (NodeRuntime::Replica(r), NodeRuntime::Replica(p)) => p == (Replica {
                    is_offline: true,
                    ..r
                }),
                _ => false,
            }),
            StationToNodeMsg::ConnectNode => match (self, post) {
                (NodeRuntime::Leader(l), NodeRuntime::Leader(p)) => l.connect_step(p, acts),
                (NodeRuntime::Replica(r), NodeRuntime::Replica(p)) => r.connect_step(p, acts),
                _ => false,
            },
        }
    }

    /// Handles a message from the station (see `station_step`).
    pub fn handle_station_msg(self, msg: StationToNodeMsg) -> (res: (NodeRuntime, Vec<NodeAction>))
        requires
            self.wf(),
        ensures
            res.0.wf(),
            self.station_step(msg, res.0, actions_view(res.1@)),
    {
        match msg {
            StationToNodeMsg::ChargeRequest { account_id, card_id, amount, request_id } => {
                self.handle_charge_request(account_id, card_id, amount, request_id)
            },
            StationToNodeMsg::DisconnectNode => match self {
                NodeRuntime::Leader(l) => {
                    let mut l = l;
                    let r = l.handle_disconnect_node();
                    (NodeRuntime::Leader(l), r)
                },
                NodeRuntime::Replica(rep) => {
                    let mut rep = rep;
                    let r = rep.handle_disconnect_node();
                    (NodeRuntime::Replica(rep), r)
                },
            },
            StationToNodeMsg::ConnectNode => match self {
                NodeRuntime::Leader(l) => {
                    let mut l = l;
                    let r = l.handle_connect_node();
                    (NodeRuntime::Leader(l), r)
                },
                NodeRuntime::Replica(rep) => {
                    let mut rep = rep;
                    let r = rep.handle_connect_node();
                    (NodeRuntime::Replica(rep), r)
                },
            },
        }
    }

    /// A pump's charge request (see `station_step`).
    pub fn handle_charge_request(
        self,
        account_id: u64,
        card_id: u64,
        amount: i64,
        request_id: u32,
    ) -> (res: (NodeRuntime, Vec<NodeAction>))
        requires
            self.wf(),
        ensures
            res.0.wf(),
            self.station_step(
                StationToNodeMsg::ChargeRequest { account_id, card_id, amount, request_id },
                res.0,
                actions_view(res.1@),
            ),
    {
        let offline = match &self {
            NodeRuntime::Leader(l) => l.is_offline(),
            NodeRuntime::Replica(r) => r.is_offline(),
        };
        if offline {
            let op = Operation::Charge { account_id, card_id, amount, from_offline_station: true };
            let node = match self {
                NodeRuntime::Leader(l) => {
                    let mut l = l;
                    l.log_offline_operation(op);
                    NodeRuntime::Leader(l)
                },
                NodeRuntime::Replica(rep) => {
                    let mut rep = rep;
                    rep.log_offline_operation(op);
                    NodeRuntime::Replica(rep)
                },
            };
            let mut r: Vec<NodeAction> = Vec::new();
            r.push(
                NodeAction::ToStation {
                    msg: NodeToStationMsg::ChargeResult { request_id, allowed: true, error: None },
                    propagate: false,
                },
            );
            assert(actions_view(r@) =~= seq![r@[0]@]);
            return (node, r);
        }
        let op = Operation::Charge { account_id, card_id, amount, from_offline_station: false };
        match self {
            NodeRuntime::Leader(l) => {
                let mut l = l;
                let addr = l.get_address();
                let r = l.handle_request(request_id, op, addr);
                (NodeRuntime::Leader(l), r)
            },
            NodeRuntime::Replica(rep) => {
                let addr = rep.get_address();
                let r = rep.handle_request(request_id, op, addr);
                (NodeRuntime::Replica(rep), r)
            },
        }
    }

    /// Whether the role accepts this database event: a leader needs the id
    /// to be 0 or pending, a replica needs room for the acknowledgement's
    /// id; any other event is accepted.
    pub open spec fn accepts_event(&self, ev: ActorEvent) -> bool {
        match ev {
            ActorEvent::OperationResult { op_id, operation, .. } => match self {
                NodeRuntime::Leader(l) => l.result_expected(op_id),
                NodeRuntime::Replica(_) => Replica::result_expected(op_id, operation),
            },
            _ => true,
        }
    }

    /// Checks `accepts_event`.
    pub fn accepts_actor_event(&self, ev: &ActorEvent) -> (b: bool)
        requires
            self.wf(),
        ensures
            b == self.accepts_event(*ev),
    {
        match ev {
            ActorEvent::OperationResult { op_id, operation, .. } => match self {
                NodeRuntime::Leader(l) => l.expects_result(*op_id),
                NodeRuntime::Replica(_) => match operation {
                    Operation::ReplaceDatabase { .. } => true,
                    _ => *op_id < u32::MAX,
                },
            },
            _ => true,
        }
    }

    /// The role's handling of a database event: an operation's result goes
    /// to `handle_operation_result`; anything else is ignored.
    pub open spec fn event_step(self, ev: ActorEvent, post: NodeRuntime, acts: Seq<ActionView>) -> bool {
        match ev {
            ActorEvent::OperationResult { op_id, operation, result, .. } => match (self, post) {
                (NodeRuntime::Leader(l), NodeRuntime::Leader(p)) => l.result_step(
                    op_id,
                    operation,
                    result,
                    p,
                    acts,
                ),
                (NodeRuntime::Replica(r), NodeRuntime::Replica(p)) => r.result_step(
                    op_id,
                    operation,
                    p,
                    acts,
                ),
                _ => false,
            },
            _ => post == self && acts.len() == 0,
        }
    }

    /// Handles a database event (see `event_step`).
    pub fn handle_actor_event(self, ev: ActorEvent) -> (res: (NodeRuntime, Vec<NodeAction>))
        requires
            self.wf(),
            self.accepts_event(ev),
        ensures
            res.0.wf(),
            self.event_step(ev, res.0, actions_view(res.1@)),
    {
        match ev {
            ActorEvent::OperationResult { op_id, operation, result, .. } => match self {
                NodeRuntime::Leader(l) => {
                    let mut l = l;
                    let r = l.handle_operation_result(op_id, operation, result);
                    (NodeRuntime::Leader(l), r)
                },
                NodeRuntime::Replica(rep) => {
                    let mut rep = rep;
                    let r = rep.handle_operation_result(op_id, operation, result);
                    (NodeRuntime::Replica(rep), r)
                },
            },
            _ => (self, Vec::new()),
        }
    }

    /// The role's check of its election at `now`.
    pub open spec fn timeout_step(self, now: u64, post: NodeRuntime, rc: RoleChange, acts: Seq<
        ActionView,
    >) -> bool {
        match (self, post) {
            (NodeRuntime::Leader(l), NodeRuntime::Leader(p)) => l.timeout_step(now, p, rc, acts),
            (NodeRuntime::Replica(r), NodeRuntime::Replica(p)) => r.timeout_step(now, p, rc, acts),
            _ => false,
        }
    }

    /// The periodic election check (see `timeout_step`).
    pub fn handle_election_timeout(self, now: u64) -> (res: (NodeRuntime, RoleChange, Vec<NodeAction>))
        requires
            self.wf(),
        ensures
            res.0.wf(),
            self.timeout_step(now, res.0, res.1, actions_view(res.2@)),
    {
        match self {
            NodeRuntime::Leader(l) => {
                let mut l = l;
                let (rc, r) = l.handle_election_timeout(now);
                (NodeRuntime::Leader(l), rc, r)
            },
            NodeRuntime::Replica(rep) => {
                let mut rep = rep;
                let (rc, r) = rep.handle_election_timeout(now);
                (NodeRuntime::Replica(rep), rc, r)
            },
        }
    }

    /// The role's handling of a lost connection to `address`, whose id is
    /// `address_id`.
    pub open spec fn connection_lost_step(
        self,
        address: NodeAddr,
        address_id: u64,
        now: u64,
        post: NodeRuntime,
        rc: RoleChange,
        acts: Seq<ActionView>,
    ) -> bool {
        match (self, post) {
            (NodeRuntime::Leader(l), NodeRuntime::Leader(p)) => l.connection_lost_step(
                address_id,
                p,
                rc,
            ) && acts.len() == 0,
            (NodeRuntime::Replica(r), NodeRuntime::Replica(p)) => r.connection_lost_step(
                address,
                address_id,
                now,
                p,
                rc,
                acts,
            ),
            _ => false,
        }
    }

    /// A connection was lost (see `connection_lost_step`).
    pub fn handle_connection_lost_with(self, address: NodeAddr, address_id: u64, now: u64) -> (res: (
        NodeRuntime,
        RoleChange,
        Vec<NodeAction>,
    ))
        requires
            self.wf(),
        ensures
            res.0.wf(),
            self.connection_lost_step(address, address_id, now, res.0, res.1, actions_view(res.2@)),
    {
        match self {
            NodeRuntime::Leader(l) => {
                let mut l = l;
                let rc = l.handle_connection_lost_with(address_id);
                (NodeRuntime::Leader(l), rc, Vec::new())
            },
            NodeRuntime::Replica(rep) => {
                let mut rep = rep;
                let (rc, r) = rep.handle_connection_lost_with(address, address_id, now);
                (NodeRuntime::Replica(rep), rc, r)
            },
        }
    }

    /// Whether `advance_op_id` can run: a leader's operation id must not be
    /// the largest `u32`.
    pub open spec fn can_advance(&self) -> bool {
        match self {
            NodeRuntime::Leader(l) => l.current_op_id < u32::MAX,
            NodeRuntime::Replica(_) => true,
        }
    }

    /// Checks `can_advance`.
    pub fn may_advance_op_id(&self) -> (b: bool)
        ensures
            b == self.can_advance(),
    {
        match self {
            NodeRuntime::Leader(l) => l.current_op_id < u32::MAX,
            NodeRuntime::Replica(_) => true,
        }
    }

    /// Performs `AdvanceOpId`: the leader's operation id grows by one; a
    /// replica has none.
    pub fn advance_op_id(self) -> (n: NodeRuntime)
        requires
            self.wf(),
            self.can_advance(),
        ensures
            n.wf(),
            match (self, n) {
                (NodeRuntime::Leader(l), NodeRuntime::Leader(p)) => p == (Leader {
                    current_op_id: (l.current_op_id + 1) as u32,
                    ..l
                }),
                (NodeRuntime::Replica(r), NodeRuntime::Replica(p)) => p == r,
                _ => false,
            },
    {
        match self {
            NodeRuntime::Leader(l) => {
                let mut l = l;
                l.advance_op_id();
                NodeRuntime::Leader(l)
            },
            NodeRuntime::Replica(rep) => NodeRuntime::Replica(rep),
        }
    }

    /// Performs `DrainOfflineQueue`: a replica forwards its next offline
    /// operation; a leader does nothing.
    pub fn drain_offline_step(self) -> (res: (NodeRuntime, Vec<NodeAction>))
        requires
            self.wf(),
        ensures
            res.0.wf(),
            match (self, res.0) {
                (NodeRuntime::Leader(l), NodeRuntime::Leader(p)) => p == l && res.1@.len() == 0,
                (NodeRuntime::Replica(r), NodeRuntime::Replica(p)) => r.drain_step(
                    p,
                    actions_view(res.1@),
                ),
                _ => false,
            },
    {
        match self {
            NodeRuntime::Leader(l) => (NodeRuntime::Leader(l), Vec::new()),
            NodeRuntime::Replica(rep) => {
                let mut rep = rep;
                let r = rep.drain_offline_step();
                (NodeRuntime::Replica(rep), r)
            },
        }
    }

    /// Switches roles: promotion turns a replica into the leader, demotion
    /// turns the leader into a replica of the announced leader; a change that
    /// does not apply to the current role keeps it.
    pub fn apply_role_change(self, rc: RoleChange) -> (n: NodeRuntime)
        requires
            self.wf(),
        ensures
            n.wf(),
            match (self, rc) {
                (NodeRuntime::Replica(r), RoleChange::PromoteToLeader) => match n {
                    NodeRuntime::Leader(l) => l.id == r.id && l.address == r.address && l.cluster
                        == r.cluster && l.is_offline == r.is_offline && l.offline_queue
                        == r.offline_queue && l.operations@ == Map::<
                        u32,
                        crate::node::leader::PendingOperation,
                    >::empty() && !l.election_in_progress && l.election_start is None && (
                    r.operations@.dom() == Set::<u32>::empty() ==> l.current_op_id == 1) && (
                    r.operations@.dom() != Set::<u32>::empty() ==> r.operations@.contains_key(
                        l.current_op_id,
                    ) && forall|k: u32| #[trigger] r.operations@.contains_key(k) ==> k
                        <= l.current_op_id),
                    _ => false,
                },
                (NodeRuntime::Leader(l), RoleChange::DemoteToReplica { new_leader_addr }) => match n {
                    NodeRuntime::Replica(r) => r.id == l.id && r.address == l.address
                        && r.leader_addr == new_leader_addr && r.cluster == l.cluster
                        && r.operations@ == Map::<u32, Operation>::empty() && r.is_offline
                        == l.is_offline && r.offline_queue == l.offline_queue
                        && !r.election_in_progress && r.election_start is None,
                    _ => false,
                },
                _ => n == self,
            },
    {
        match (self, rc) {
            (NodeRuntime::Replica(r), RoleChange::PromoteToLeader) => NodeRuntime::Leader(
                r.into_leader(),
            ),
            (NodeRuntime::Leader(l), RoleChange::DemoteToReplica { new_leader_addr }) => {
                NodeRuntime::Replica(l.into_replica(new_leader_addr))
            },
            (node, _) => node,
        }
    }
}

} // verus!
