use ypf_ruta::actors::messages::ActorEvent;
use ypf_ruta::address::NodeAddr;
use ypf_ruta::errors::{AppError, DecodeError};
use ypf_ruta::node::bully::{conduct_election, Bully};
use ypf_ruta::node::cluster::Cluster;
use ypf_ruta::node::leader::{has_timed_out, Leader};
use ypf_ruta::node::messages::{
    Message, NodeAction, NodeRole, NodeToStationMsg, RoleChange, SendPolicy, StationToNodeMsg,
};
use ypf_ruta::node::replica::Replica;
use ypf_ruta::node::runtime::{classify_error, ErrorOutcome, NodeRuntime};
use ypf_ruta::node::sends::{after_send, join_next, join_start, JoinNext, SendNext};
use ypf_ruta::operation::{ChargeResult, DatabaseSnapshot, Operation, OperationResult};

fn addr(port: u16) -> NodeAddr {
    NodeAddr::v4(127, 0, 0, 1, port)
}

fn charge() -> Operation {
    Operation::Charge { account_id: 1, card_id: 10, amount: 5000, from_offline_station: false }
}

fn leader_with(members: &[(u64, u16)]) -> Leader {
    let mut l = Leader::new(50, addr(5000));
    for (id, port) in members {
        l.cluster.insert(*id, addr(*port));
    }
    l
}

#[test]
fn bully_new_sets_fields() {
    let a = addr(40000);
    let b = Bully::new(42, a);
    assert_eq!(b.id, 42);
    assert_eq!(b.address, a);
    assert!(!b.is_election_in_progress());
    assert!(!b.received_ok);
    assert!(b.leader_id.is_none());
}

#[test]
fn on_coordinator_updates_state() {
    let a = addr(40001);
    let mut b = Bully::new(7, a);
    let leader_addr = addr(50000);
    b.on_coordinator(99, leader_addr);
    assert_eq!(b.leader_id, Some(99));
    assert_eq!(b.leader_addr, Some(leader_addr));
    assert!(!b.is_election_in_progress());
}

#[test]
fn start_election_sets_state() {
    let mut b = Bully::new(3, addr(0));
    assert!(b.mark_start_election());
    assert!(b.is_election_in_progress());
    assert!(!b.received_ok);
    assert!(!b.mark_start_election());
}

#[test]
fn bully_replies_only_to_lower_candidates() {
    let b = Bully::new(10, addr(1));
    assert!(b.should_reply_ok(9));
    assert!(!b.should_reply_ok(10));
    assert!(!b.should_reply_ok(11));
}

#[test]
fn conduct_election_contacts_higher_peers_and_sets_deadline() {
    let mut b = Bully::new(5, addr(1));
    let cluster = vec![(3, addr(3)), (5, addr(1)), (8, addr(8)), (9, addr(9))];
    let (won, actions) = conduct_election(&mut b, &cluster, 5, addr(1), 1000);
    assert!(!won);
    assert_eq!(b.election_deadline, Some(2200));
    let targets: Vec<NodeAddr> = actions
        .iter()
        .map(|a| match a {
            NodeAction::Send { to, msg: Message::Election { candidate_id: 5, .. }, .. } => *to,
            other => panic!("unexpected action {:?}", other),
        })
        .collect();
    assert_eq!(targets, vec![addr(8), addr(9)]);
    let (_, again) = conduct_election(&mut b, &cluster, 5, addr(1), 2000);
    assert!(again.is_empty());
}

#[test]
fn conduct_election_without_higher_peers_makes_the_node_coordinator() {
    let mut b = Bully::new(9, addr(9));
    let cluster = vec![(3, addr(3)), (5, addr(5)), (9, addr(9))];
    let (won, actions) = conduct_election(&mut b, &cluster, 9, addr(9), 1000);
    assert!(won);
    assert!(actions.is_empty());
    assert_eq!(b.leader_id, Some(9));
    assert_eq!(b.leader_addr, Some(addr(9)));
    assert!(!b.election_in_progress);
    assert_eq!(b.election_deadline, None);
}

#[test]
fn lone_leader_executes_a_request_at_once() {
    let mut l = Leader::new(50, addr(5000));
    let actions = l.handle_request(7, charge(), addr(5000));
    assert_eq!(actions.len(), 2);
    assert!(matches!(actions[0], NodeAction::Execute { op_id: 1, operation: Operation::Charge { amount: 5000, .. } }));
    assert!(matches!(actions[1], NodeAction::AdvanceOpId));
    assert_eq!(l.current_op_id, 1);
    l.advance_op_id();
    let next = l.handle_request(8, charge(), addr(5000));
    assert!(matches!(next[0], NodeAction::Execute { op_id: 2, .. }));
    assert!(l.expects_result(1));
    assert!(l.expects_result(2));
}

#[test]
fn leader_logs_a_request_to_every_replica_then_advances() {
    let mut l = leader_with(&[(10, 5010), (20, 5020)]);
    let actions = l.handle_request(7, charge(), addr(6000));
    assert_eq!(actions.len(), 3);
    for (i, port) in [5010u16, 5020].iter().enumerate() {
        match &actions[i] {
            NodeAction::Send { to, msg: Message::Log { op_id: 1, .. }, policy } => {
                assert_eq!(*to, addr(*port));
                assert_eq!(*policy, SendPolicy::Propagate);
            }
            other => panic!("unexpected action {:?}", other),
        }
    }
    assert!(matches!(actions[2], NodeAction::AdvanceOpId));
    l.advance_op_id();
    assert_eq!(l.current_op_id, 2);
}

#[test]
fn majority_of_three_executes_on_the_first_ack() {
    let mut l = leader_with(&[(10, 5010), (20, 5020)]);
    l.handle_request(7, charge(), addr(6000));
    let first = l.handle_ack(1);
    assert!(matches!(first[..], [NodeAction::Execute { op_id: 1, .. }]));
    let second = l.handle_ack(1);
    assert!(second.is_empty());
}

#[test]
fn majority_of_four_executes_on_the_second_ack() {
    let mut l = leader_with(&[(10, 5010), (20, 5020), (30, 5030)]);
    l.handle_request(7, charge(), addr(6000));
    assert!(l.handle_ack(1).is_empty());
    assert_eq!(l.handle_ack(1).len(), 1);
    assert!(l.handle_ack(1).is_empty());
}

#[test]
fn cluster_of_two_executes_on_the_first_ack_only() {
    let mut l = leader_with(&[(10, 5010)]);
    l.handle_request(7, charge(), addr(6000));
    assert_eq!(l.handle_ack(1).len(), 1);
    assert!(l.handle_ack(1).is_empty());
}

#[test]
fn unknown_ack_is_ignored() {
    let mut l = leader_with(&[(10, 5010)]);
    assert!(l.handle_ack(99).is_empty());
}

#[test]
fn leader_answers_its_station_and_its_clients() {
    let mut l = leader_with(&[(10, 5010)]);
    l.handle_request(7, charge(), addr(5000));
    let actions = l.handle_operation_result(1, charge(), OperationResult::Charge(ChargeResult::Accepted));
    match &actions[..] {
        [NodeAction::ToStation { msg, propagate: true }] => assert_eq!(
            *msg,
            NodeToStationMsg::ChargeResult { request_id: 7, allowed: true, error: None }
        ),
        other => panic!("unexpected actions {:?}", other),
    }
    assert!(!l.expects_result(1));
    l.handle_request(8, charge(), addr(6000));
    let actions = l.handle_operation_result(1, charge(), OperationResult::Charge(ChargeResult::Accepted));
    match &actions[..] {
        [NodeAction::Send { to, msg: Message::Response { req_id: 8, .. }, policy: SendPolicy::Propagate }] => {
            assert_eq!(*to, addr(6000))
        }
        other => panic!("unexpected actions {:?}", other),
    }
}

#[test]
fn leader_sends_the_snapshot_to_a_joining_node() {
    let mut l = leader_with(&[(10, 5010)]);
    let join = l.handle_join(addr(5020), 20);
    assert!(matches!(join[0], NodeAction::Execute { op_id: 0, operation: Operation::GetDatabase { .. } }));
    match &join[1..] {
        [NodeAction::Send { to, msg: Message::ClusterUpdate { new_member: (20, _) }, .. }] => {
            assert_eq!(*to, addr(5010))
        }
        other => panic!("unexpected actions {:?}", other),
    }
    let snapshot = DatabaseSnapshot { addr: addr(5020), accounts: vec![], cards: vec![] };
    let actions = l.handle_operation_result(
        0,
        Operation::GetDatabase { addr: addr(5020) },
        OperationResult::DatabaseSnapshot(snapshot),
    );
    match &actions[..] {
        [NodeAction::Send { to, msg: Message::ClusterView { members, leader_addr, .. }, policy: SendPolicy::RetryOnce }] => {
            assert_eq!(*to, addr(5020));
            assert_eq!(*leader_addr, addr(5000));
            assert_eq!(members.len(), 3);
        }
        other => panic!("unexpected actions {:?}", other),
    }
}

#[test]
fn leader_demotes_for_an_equal_or_higher_coordinator() {
    let mut l = leader_with(&[]);
    assert_eq!(l.handle_coordinator(49, addr(1)), RoleChange::NoChange);
    assert_eq!(
        l.handle_coordinator(50, addr(2)),
        RoleChange::DemoteToReplica { new_leader_addr: addr(2) }
    );
}

#[test]
fn replica_acknowledges_first_entry_and_commits_the_previous_one() {
    let mut r = Replica::new(10, addr(5010), addr(5000), 50);
    let a1 = r.handle_log(1, charge());
    assert!(matches!(&a1[..], [NodeAction::Send { msg: Message::Ack { op_id: 1 }, .. }]));
    let a2 = r.handle_log(2, Operation::AccountQuery { account_id: 1 });
    assert!(matches!(&a2[..], [NodeAction::Execute { op_id: 1, operation: Operation::Charge { .. } }]));
    let after = r.handle_operation_result(1, charge(), OperationResult::Charge(ChargeResult::Accepted));
    match &after[..] {
        [NodeAction::Send { to, msg: Message::Ack { op_id: 2 }, .. }] => assert_eq!(*to, addr(5000)),
        other => panic!("unexpected actions {:?}", other),
    }
}

#[test]
fn highest_replica_takes_the_lead_when_its_leader_is_lost() {
    let mut r = Replica::new(90, addr(5090), addr(5000), 50);
    let (rc, actions) = r.handle_connection_lost_with(addr(5000), 50, 100);
    assert_eq!(rc, RoleChange::PromoteToLeader);
    assert!(actions.is_empty());
    assert_eq!(r.cluster_len(), 0);
}

#[test]
fn lower_replica_asks_higher_members_first() {
    let mut r = Replica::new(10, addr(5010), addr(5000), 50);
    r.handle_cluster_update((30, addr(5030)));
    let (rc, actions) = r.start_election(100);
    assert_eq!(rc, RoleChange::NoChange);
    assert_eq!(actions.len(), 2);
    assert!(r.election_in_progress);
    assert_eq!(r.election_start, Some(100));
    let (rc, _) = r.handle_election_timeout(1500);
    assert_eq!(rc, RoleChange::NoChange);
    let (rc, announce) = r.handle_election_timeout(2100);
    assert_eq!(rc, RoleChange::PromoteToLeader);
    assert_eq!(announce.len(), 2);
}

#[test]
fn election_timeout_is_two_seconds() {
    assert!(!has_timed_out(1000, 2999));
    assert!(has_timed_out(1000, 3000));
    assert!(!has_timed_out(5000, 10));
}

#[test]
fn offline_charges_are_approved_and_queued() {
    let node = NodeRuntime::Leader(Leader::new(50, addr(5000)));
    let (node, _) = node.handle_station_msg(StationToNodeMsg::DisconnectNode);
    let (node, actions) = node.handle_station_msg(StationToNodeMsg::ChargeRequest {
        account_id: 1,
        card_id: 10,
        amount: 700,
        request_id: 3,
    });
    match &actions[..] {
        [NodeAction::ToStation { msg, propagate: false }] => assert_eq!(
            *msg,
            NodeToStationMsg::ChargeResult { request_id: 3, allowed: true, error: None }
        ),
        other => panic!("unexpected actions {:?}", other),
    }
    match node {
        NodeRuntime::Leader(l) => {
            assert_eq!(l.offline_queue.len(), 1);
            assert!(matches!(l.offline_queue[0], Operation::Charge { from_offline_station: true, amount: 700, .. }));
        }
        NodeRuntime::Replica(_) => panic!("role changed"),
    }
}

#[test]
fn replica_replays_its_offline_queue_after_a_replacement() {
    let mut r = Replica::new(10, addr(5010), addr(5000), 50);
    r.log_offline_operation(charge());
    r.log_offline_operation(Operation::AccountQuery { account_id: 2 });
    let snapshot = DatabaseSnapshot { addr: addr(5010), accounts: vec![], cards: vec![] };
    let first = r.handle_operation_result(0, Operation::ReplaceDatabase { snapshot }, OperationResult::ReplaceDatabase);
    assert!(matches!(&first[..], [NodeAction::Send { msg: Message::Request { req_id: 0, op: Operation::Charge { .. }, .. }, .. }, NodeAction::DrainOfflineQueue]));
    let second = r.drain_offline_step();
    assert!(matches!(&second[..], [NodeAction::Send { msg: Message::Request { op: Operation::AccountQuery { account_id: 2 }, .. }, .. }, NodeAction::DrainOfflineQueue]));
    assert!(r.drain_offline_step().is_empty());
}

#[test]
fn replica_forwards_charge_answers_to_its_station() {
    let r = Replica::new(10, addr(5010), addr(5000), 50);
    let a = r.handle_response(4, OperationResult::Charge(ChargeResult::Accepted));
    assert!(matches!(&a[..], [NodeAction::ToStation { msg: NodeToStationMsg::ChargeResult { request_id: 4, allowed: true, error: None }, propagate: true }]));
    assert!(r.handle_response(0, OperationResult::Charge(ChargeResult::Accepted)).is_empty());
}

#[test]
fn role_query_reports_the_role() {
    let r = Replica::new(10, addr(5010), addr(5000), 50);
    let a = r.handle_role_query(addr(7000), 10);
    assert!(matches!(&a[..], [NodeAction::Send { msg: Message::RoleResponse { node_id: 10, role: NodeRole::Replica }, .. }]));
}

#[test]
fn runtime_refuses_what_the_role_cannot_handle() {
    let leader = NodeRuntime::Leader(Leader::new(50, addr(5000)));
    assert!(!leader.accepts_message(&Message::Log { op_id: 1, op: charge() }));
    assert!(leader.accepts_message(&Message::Ack { op_id: 1 }));
    let replica = NodeRuntime::Replica(Replica::new(10, addr(5010), addr(5000), 50));
    assert!(!replica.accepts_message(&Message::Ack { op_id: 1 }));
    assert!(!replica.accepts_message(&Message::Log { op_id: 0, op: charge() }));
    assert!(!replica.accepts_message(&Message::Coordinator { leader_id: 5, leader_addr: addr(1) }));
    assert!(replica.accepts_message(&Message::Coordinator { leader_id: 10, leader_addr: addr(1) }));
    let ev = ActorEvent::OperationResult {
        op_id: 3,
        operation: charge(),
        result: OperationResult::Charge(ChargeResult::Accepted),
        success: true,
        error: None,
    };
    assert!(!leader.accepts_actor_event(&ev));
}

#[test]
fn role_changes_keep_the_node_state() {
    let mut r = Replica::new(10, addr(5010), addr(5000), 50);
    r.handle_log(4, charge());
    r.log_offline_operation(charge());
    let node = NodeRuntime::Replica(r).apply_role_change(RoleChange::PromoteToLeader);
    let node = match node {
        NodeRuntime::Leader(l) => {
            assert_eq!(l.current_op_id, 4);
            assert_eq!(l.offline_queue.len(), 1);
            assert_eq!(l.id, 10);
            NodeRuntime::Leader(l)
        }
        NodeRuntime::Replica(_) => panic!("not promoted"),
    };
    match node.apply_role_change(RoleChange::DemoteToReplica { new_leader_addr: addr(5090) }) {
        NodeRuntime::Replica(r) => {
            assert_eq!(r.get_leader_addr(), addr(5090));
            assert_eq!(r.offline_queue.len(), 1);
        }
        NodeRuntime::Leader(_) => panic!("not demoted"),
    }
}

#[test]
fn errors_are_classified_as_the_runtime_handles_them() {
    assert_eq!(classify_error(AppError::ConnectionLostWith { address: addr(1) }), ErrorOutcome::LostWith(addr(1)));
    assert_eq!(classify_error(AppError::ConnectionLost), ErrorOutcome::Continue);
    assert_eq!(classify_error(AppError::ConnectionRefused { addr: addr(1) }), ErrorOutcome::Continue);
    assert_eq!(
        classify_error(AppError::InvalidData { reason: DecodeError::NotEnoughBytes }),
        ErrorOutcome::Stop
    );
}

#[test]
fn cluster_view_replaces_the_members_and_the_database() {
    let mut r = Replica::new(10, addr(5010), addr(5000), 50);
    let members = vec![(50, addr(5000)), (10, addr(5010)), (5, addr(5005))];
    let snapshot = DatabaseSnapshot { addr: addr(5010), accounts: vec![], cards: vec![] };
    let actions = r.handle_cluster_view(members, addr(5000), 50, snapshot, 10);
    assert!(matches!(actions[0], NodeAction::Execute { op_id: 0, operation: Operation::ReplaceDatabase { .. } }));
    assert_eq!(r.cluster_len(), 3);
    assert!(r.election_in_progress);
    let mut c = Cluster::single(1, addr(1));
    c.insert(1, addr(2));
    assert_eq!(c.len(), 1);
    assert_eq!(c.to_vec(), vec![(1, addr(2))]);
}

#[test]
fn leader_replays_its_offline_queue_when_back_online() {
    let node = NodeRuntime::Leader(leader_with(&[(10, 5010)]));
    let (node, _) = node.handle_station_msg(StationToNodeMsg::DisconnectNode);
    let (node, _) = node.handle_station_msg(StationToNodeMsg::ChargeRequest {
        account_id: 1,
        card_id: 10,
        amount: 700,
        request_id: 3,
    });
    let (node, actions) = node.handle_station_msg(StationToNodeMsg::ConnectNode);
    match &actions[..] {
        [NodeAction::Reconnect, NodeAction::JoinCluster { targets, strict: false, .. }, NodeAction::Execute { op_id: 0, operation: Operation::Charge { amount: 700, from_offline_station: true, .. } }] => {
            assert_eq!(targets, &vec![addr(5010)])
        }
        other => panic!("unexpected actions {:?}", other),
    }
    match node {
        NodeRuntime::Leader(l) => {
            assert!(!l.is_offline());
            assert!(l.offline_queue.is_empty());
        }
        NodeRuntime::Replica(_) => panic!("role changed"),
    }
}

#[test]
fn leader_numbers_requests_consecutively() {
    let mut l = leader_with(&[(10, 5010)]);
    let mut ids = Vec::new();
    for req in 0..3u32 {
        let actions = l.handle_request(req, charge(), addr(6000));
        for a in &actions {
            match a {
                NodeAction::Send { msg: Message::Log { op_id, .. }, .. } => ids.push(*op_id),
                NodeAction::AdvanceOpId => l.advance_op_id(),
                other => panic!("unexpected action {:?}", other),
            }
        }
    }
    assert_eq!(ids, vec![1, 2, 3]);
    assert!(l.expects_result(1) && l.expects_result(2) && l.expects_result(3));
}

#[test]
fn replica_executes_log_entries_in_order() {
    let mut r = Replica::new(10, addr(5010), addr(5000), 50);
    let mut executed = Vec::new();
    for op_id in 1..=4u32 {
        let op = Operation::AccountQuery { account_id: op_id as u64 };
        for a in r.handle_log(op_id, op) {
            if let NodeAction::Execute { op_id, operation: Operation::AccountQuery { account_id } } = a {
                executed.push((op_id, account_id));
            }
        }
    }
    assert_eq!(executed, vec![(1, 1), (2, 2), (3, 3)]);
}

#[test]
fn joining_tries_targets_in_order_with_one_retry() {
    let targets = vec![addr(1), addr(2)];
    let p = join_start();
    let (n, p) = join_next(&targets, true, p, None);
    assert_eq!(n, JoinNext::Send(addr(1)));
    let (n, p) = join_next(&targets, true, p, Some(false));
    assert_eq!(n, JoinNext::Send(addr(1)));
    let (n, p) = join_next(&targets, true, p, Some(true));
    assert_eq!(n, JoinNext::Send(addr(2)));
    let (n, _) = join_next(&targets, true, p, Some(true));
    assert_eq!(n, JoinNext::Done);
    let (_, p) = join_next(&targets, true, join_start(), None);
    let (_, p) = join_next(&targets, true, p, Some(false));
    assert_eq!(join_next(&targets, true, p, Some(false)).0, JoinNext::Fail);
    assert_eq!(join_next(&targets, false, p, Some(false)).0, JoinNext::Send(addr(2)));
    assert_eq!(join_next(&vec![], false, join_start(), None).0, JoinNext::Done);
}

#[test]
fn send_policies_decide_what_follows_a_failure() {
    for p in [SendPolicy::IgnoreError, SendPolicy::Propagate, SendPolicy::RetryOnce] {
        assert_eq!(after_send(p, true, false), SendNext::Continue);
    }
    assert_eq!(after_send(SendPolicy::IgnoreError, false, false), SendNext::Continue);
    assert_eq!(after_send(SendPolicy::Propagate, false, false), SendNext::Fail);
    assert_eq!(after_send(SendPolicy::RetryOnce, false, false), SendNext::Retry);
    assert_eq!(after_send(SendPolicy::RetryOnce, false, true), SendNext::Fail);
}
