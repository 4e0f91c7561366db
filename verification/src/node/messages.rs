//! Messages between nodes, between a node and its station, and the actions a
//! node asks its runtime to perform.

use vstd::prelude::*;

use crate::actors::model::ResultView;
use crate::address::NodeAddr;
use crate::errors::VerifyError;
use crate::operation::{
    ChargeResult, DatabaseSnapshot, Operation, OperationResult, OperationView, SnapshotView,
};

verus! {

/// Role of a node in the cluster.
#[derive(Clone, Copy, Debug, PartialEq, Eq, Structural)]
pub enum NodeRole {
    Leader,
    Replica,
    Station,
}

/// Messages sent between nodes.
#[derive(Debug)]
pub enum Message {
    /// A client request, forwarded to the leader.
    Request { req_id: u32, op: Operation, addr: NodeAddr },
    /// A log entry sent by the leader to the replicas.
    Log { op_id: u32, op: Operation },
    /// A replica's acknowledgement of a log entry.
    Ack { op_id: u32 },
    /// A candidate's election message (Bully).
    Election { candidate_id: u64, candidate_addr: NodeAddr },
    /// A higher node's answer to a candidate.
    ElectionOk { responder_id: u64 },
    /// Announcement of the new leader.
    Coordinator { leader_id: u64, leader_addr: NodeAddr },
    /// A node asks to join the cluster.
    Join { addr: NodeAddr },
    /// The leader's answer to a join: members, leader and database.
    ClusterView { members: Vec<(u64, NodeAddr)>, leader_addr: NodeAddr, database: DatabaseSnapshot },
    /// The leader tells the replicas about a new member.
    ClusterUpdate { new_member: (u64, NodeAddr) },
    /// The result of a request, for the client that sent it.
    Response { req_id: u32, op_result: OperationResult },
    /// Asks a node for its role.
    RoleQuery { addr: NodeAddr },
    /// A node's answer to a role query.
    RoleResponse { node_id: u64, role: NodeRole },
}

/// Messages from the station (pumps) to its node.
#[derive(Clone, Copy, Debug, PartialEq, Eq, Structural)]
pub enum StationToNodeMsg {
    /// A pump asks to charge an amount.
    ChargeRequest { account_id: u64, card_id: u64, amount: i64, request_id: u32 },
    /// Switch the node to offline mode.
    DisconnectNode,
    /// Switch the node back to online mode.
    ConnectNode,
}

/// Messages from a node to its station.
#[derive(Clone, Copy, Debug, PartialEq, Eq, Structural)]
pub enum NodeToStationMsg {
    /// Final result of a charge request.
    ChargeResult { request_id: u32, allowed: bool, error: Option<VerifyError> },
}

/// Whether a role transition should occur.
#[derive(Clone, Copy, Debug, PartialEq, Eq, Structural)]
pub enum RoleChange {
    NoChange,
    PromoteToLeader,
    DemoteToReplica { new_leader_addr: NodeAddr },
}

/// What to do when a send fails.
#[derive(Clone, Copy, Debug, PartialEq, Eq, Structural)]
pub enum SendPolicy {
    /// Go on with the next action.
    IgnoreError,
    /// Stop and report the error.
    Propagate,
    /// Send once more; stop and report the error if that fails too.
    RetryOnce,
}

/// An effect a node asks its runtime to perform, in order.
#[derive(Debug)]
pub enum NodeAction {
    /// Send a message to a node.
    Send { to: NodeAddr, msg: Message, policy: SendPolicy },
    /// Execute an operation in the node's database.
    Execute { op_id: u32, operation: Operation },
    /// Send a message to the station; when `propagate`, a failure stops the
    /// remaining actions and is reported.
    ToStation { msg: NodeToStationMsg, propagate: bool },
    /// Close every connection (offline mode).
    Disconnect,
    /// Reopen the listener (back online); a failure is reported.
    Reconnect,
    /// Send `Join { addr }` to the targets in order until one accepts it.
    /// A target that fails gets one more attempt; when `strict`, the failure
    /// of that second attempt is reported, and after a successful second
    /// attempt the next target is tried as well.
    JoinCluster { targets: Vec<NodeAddr>, addr: NodeAddr, strict: bool },
    /// The log entries of the last request were all sent: advance the
    /// leader's operation counter.
    AdvanceOpId,
    /// Every earlier action succeeded: forward the next operation queued
    /// while offline, if any.
    DrainOfflineQueue,
}

/// A message with sequences in place of vectors.
pub enum MessageView {
    Request { req_id: u32, op: OperationView, addr: NodeAddr },
    Log { op_id: u32, op: OperationView },
    Ack { op_id: u32 },
    Election { candidate_id: u64, candidate_addr: NodeAddr },
    ElectionOk { responder_id: u64 },
    Coordinator { leader_id: u64, leader_addr: NodeAddr },
    Join { addr: NodeAddr },
    ClusterView { members: Seq<(u64, NodeAddr)>, leader_addr: NodeAddr, database: SnapshotView },
    ClusterUpdate { new_member: (u64, NodeAddr) },
    Response { req_id: u32, op_result: ResultView },
    RoleQuery { addr: NodeAddr },
    RoleResponse { node_id: u64, role: NodeRole },
}

impl View for Message {
    type V = MessageView;

    open spec fn view(&self) -> MessageView {
        match self {
            Message::Request { req_id, op, addr } => MessageView::Request {
                req_id: *req_id,
                op: op@,
                addr: *addr,
            },
            Message::Log { op_id, op } => MessageView::Log { op_id: *op_id, op: op@ },
            Message::Ack { op_id } => MessageView::Ack { op_id: *op_id },
            Message::Election { candidate_id, candidate_addr } => MessageView::Election {
                candidate_id: *candidate_id,
                candidate_addr: *candidate_addr,
            },
            Message::ElectionOk { responder_id } => MessageView::ElectionOk {
                responder_id: *responder_id,
            },
            Message::Coordinator { leader_id, leader_addr } => MessageView::Coordinator {
                leader_id: *leader_id,
                leader_addr: *leader_addr,
            },
            Message::Join { addr } => MessageView::Join { addr: *addr },
            Message::ClusterView { members, leader_addr, database } => MessageView::ClusterView {
                members: members@,
                leader_addr: *leader_addr,
                database: database@,
            },
            Message::ClusterUpdate { new_member } => MessageView::ClusterUpdate {
                new_member: *new_member,
            },
            Message::Response { req_id, op_result } => MessageView::Response {
                req_id: *req_id,
                op_result: op_result@,
            },
            Message::RoleQuery { addr } => MessageView::RoleQuery { addr: *addr },
            Message::RoleResponse { node_id, role } => MessageView::RoleResponse {
                node_id: *node_id,
                role: *role,
            },
        }
    }
}

/// An action with sequences in place of vectors.
pub enum ActionView {
    Send { to: NodeAddr, msg: MessageView, policy: SendPolicy },
    Execute { op_id: u32, operation: OperationView },
    ToStation { msg: NodeToStationMsg, propagate: bool },
    Disconnect,
    Reconnect,
    JoinCluster { targets: Seq<NodeAddr>, addr: NodeAddr, strict: bool },
    AdvanceOpId,
    DrainOfflineQueue,
}

impl View for NodeAction {
    type V = ActionView;

    open spec fn view(&self) -> ActionView {
        match self {
            NodeAction::Send { to, msg, policy } => ActionView::Send {
                to: *to,
                msg: msg@,
                policy: *policy,
            },
            NodeAction::Execute { op_id, operation } => ActionView::Execute {
                op_id: *op_id,
                operation: operation@,
            },
            NodeAction::ToStation { msg, propagate } => ActionView::ToStation {
                msg: *msg,
                propagate: *propagate,
            },
            NodeAction::Disconnect => ActionView::Disconnect,
            NodeAction::Reconnect => ActionView::Reconnect,
            NodeAction::JoinCluster { targets, addr, strict } => ActionView::JoinCluster {
                targets: targets@,
                addr: *addr,
                strict: *strict,
            },
            NodeAction::AdvanceOpId => ActionView::AdvanceOpId,
            NodeAction::DrainOfflineQueue => ActionView::DrainOfflineQueue,
        }
    }
}

/// The views of a list of actions.
pub open spec fn actions_view(actions: Seq<NodeAction>) -> Seq<ActionView> {
    actions.map_values(|a: NodeAction| a@)
}

/// Sending `msg` to each address, with the same policy.
pub open spec fn sends_to(targets: Seq<NodeAddr>, msg: MessageView, policy: SendPolicy) -> Seq<
    ActionView,
> {
    targets.map_values(|t: NodeAddr| ActionView::Send { to: t, msg, policy })
}

/// The station's answer to a charge with this outcome.
pub open spec fn charge_reply(request_id: u32, cr: ChargeResult) -> NodeToStationMsg {
    match cr {
        ChargeResult::Accepted => NodeToStationMsg::ChargeResult {
            request_id,
            allowed: true,
            error: None,
        },
        ChargeResult::Failed(e) => NodeToStationMsg::ChargeResult {
            request_id,
            allowed: false,
            error: Some(e),
        },
    }
}

/// Builds the station's answer to a charge with this outcome.
pub fn charge_reply_msg(request_id: u32, cr: ChargeResult) -> (m: NodeToStationMsg)
    ensures
        m == charge_reply(request_id, cr),
{
    match cr {
        ChargeResult::Accepted => NodeToStationMsg::ChargeResult {
            request_id,
            allowed: true,
            error: None,
        },
        ChargeResult::Failed(e) => NodeToStationMsg::ChargeResult {
            request_id,
            allowed: false,
            error: Some(e),
        },
    }
}

} // verus!
