//! State of the Bully election algorithm, kept apart from the roles.

use vstd::prelude::*;

use crate::address::NodeAddr;
use crate::node::cluster::{addrs_where, Cluster, Pick};
use crate::node::messages::{actions_view, sends_to, Message, MessageView, NodeAction, SendPolicy};
use crate::node::sends::{broadcast, copy_vec};

verus! {

/// How long a candidate waits for `ElectionOk` answers, in milliseconds.
pub const ELECTION_WINDOW_MS: u64 = 1200;

/// Bully election state of one node.
#[derive(Debug)]
pub struct Bully {
    pub id: u64,
    pub address: NodeAddr,
    pub leader_id: Option<u64>,
    pub leader_addr: Option<NodeAddr>,
    pub election_in_progress: bool,
    pub received_ok: bool,
    /// When the wait for answers ends, in milliseconds.
    pub election_deadline: Option<u64>,
}

impl Bully {
    /// A node that knows no leader and runs no election.
    pub fn new(id: u64, address: NodeAddr) -> (b: Bully)
        ensures
            b == (Bully {
                id,
                address,
                leader_id: None,
                leader_addr: None,
                election_in_progress: false,
                received_ok: false,
                election_deadline: None,
            }),
    {
        Bully {
            id,
            address,
            leader_id: None,
            leader_addr: None,
            election_in_progress: false,
            received_ok: false,
            election_deadline: None,
        }
    }

    /// Marks an election as started, unless one is running; returns whether
    /// it started.
    pub fn mark_start_election(&mut self) -> (started: bool)
        ensures
            started == !old(self).election_in_progress,
            started ==> *final(self) == (Bully {
                election_in_progress: true,
                received_ok: false,
                ..*old(self)
            }),
            !started ==> *final(self) == *old(self),
    {
        if self.election_in_progress {
            return false;
        }
        self.election_in_progress = true;
        self.received_ok = false;
        true
    }

    /// Whether an election is running.
    pub fn is_election_in_progress(&self) -> (b: bool)
        ensures
            b == self.election_in_progress,
    {
        self.election_in_progress
    }

    /// Whether to answer a candidate with `ElectionOk`: only a higher id
    /// answers.
    pub fn should_reply_ok(&self, candidate_id: u64) -> (b: bool)
        ensures
            b == (self.id > candidate_id),
    {
        self.id > candidate_id
    }

    /// Records that a higher node answered.
    pub fn on_election_ok(&mut self, responder_id: u64)
        ensures
            *final(self) == (Bully { received_ok: true, ..*old(self) }),
    {
        let _ = responder_id;
        self.received_ok = true;
    }

    /// Records this node as the coordinator; the election ends.
    pub fn mark_coordinator(&mut self)
        ensures
            *final(self) == (Bully {
                leader_id: Some(old(self).id),
                leader_addr: Some(old(self).address),
                election_in_progress: false,
                received_ok: false,
                election_deadline: None,
                ..*old(self)
            }),
    {
        self.leader_id = Some(self.id);
        self.leader_addr = Some(self.address);
        self.election_in_progress = false;
        self.received_ok = false;
        self.election_deadline = None;
    }

    /// Records an announced coordinator; the election ends.
    pub fn on_coordinator(&mut self, leader_id: u64, leader_addr: NodeAddr)
        ensures
            *final(self) == (Bully {
                leader_id: Some(leader_id),
                leader_addr: Some(leader_addr),
                election_in_progress: false,
                received_ok: false,
                election_deadline: None,
                ..*old(self)
            }),
    {
        self.leader_id = Some(leader_id);
        self.leader_addr = Some(leader_addr);
        self.election_in_progress = false;
        self.received_ok = false;
        self.election_deadline = None;
    }
}

/// Starts an election at time `now` for node `id` at `address`, unless one
/// is running. When no member of `cluster` has a higher id, the node becomes
/// the coordinator at once and `true` is returned. Otherwise `Election` goes
/// to every member with a higher id (failures ignored), the wait for answers
/// ends `ELECTION_WINDOW_MS` later and `false` is returned: whether the node
/// takes the lead is decided when that deadline passes.
pub fn conduct_election(
    bully: &mut Bully,
    cluster: &Vec<(u64, NodeAddr)>,
    id: u64,
    address: NodeAddr,
    now: u64,
) -> (res: (bool, Vec<NodeAction>))
    requires
        now + ELECTION_WINDOW_MS <= u64::MAX,
    ensures
        old(bully).election_in_progress ==> {
            &&& res.0 == false
            &&& *final(bully) == *old(bully)
            &&& res.1@.len() == 0
        },
        !old(bully).election_in_progress && addrs_where(cluster@, Pick::IdAbove(id)).len() == 0
            ==> {
            &&& res.0 == true
            &&& *final(bully) == (Bully {
                leader_id: Some(old(bully).id),
                leader_addr: Some(old(bully).address),
                election_in_progress: false,
                received_ok: false,
                election_deadline: None,
                ..*old(bully)
            })
            &&& res.1@.len() == 0
        },
        !old(bully).election_in_progress && addrs_where(cluster@, Pick::IdAbove(id)).len() > 0
            ==> {
            &&& res.0 == false
            &&& *final(bully) == (Bully {
                election_in_progress: true,
                received_ok: false,
                election_deadline: Some((now + ELECTION_WINDOW_MS) as u64),
                ..*old(bully)
            })
            &&& actions_view(res.1@) == sends_to(
                addrs_where(cluster@, Pick::IdAbove(id)),
                MessageView::Election { candidate_id: id, candidate_addr: address },
                SendPolicy::IgnoreError,
            )
        },
{
    if !bully.mark_start_election() {
        return (false, Vec::new());
    }
    let members = Cluster { members: copy_vec(cluster) };
    let higher = members.higher_than(id);
    if higher.len() == 0 {
        bully.mark_coordinator();
        return (true, Vec::new());
    }
    let r = broadcast(
        &higher,
        &Message::Election { candidate_id: id, candidate_addr: address },
        SendPolicy::IgnoreError,
    );
    bully.election_deadline = Some(now + ELECTION_WINDOW_MS);
    (false, r)
}

} // verus!
