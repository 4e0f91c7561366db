//! The node's handle on its business state: commands go in with `send`, the
//! events they produce come out, in order, with `recv`.

use vstd::prelude::*;

use crate::actors::actor_router::{outcome_of, ActorRouter};
use crate::actors::messages::{ActorEvent, RouterCmd};
use crate::actors::model::{empty_ledger, spec_execute, LedgerView};
use crate::operation::Operation;

verus! {

/// Commands the node sends to its database.
#[derive(Debug)]
pub enum DatabaseCmd {
    Execute { op_id: u32, operation: Operation },
}

/// The actor-based database of a node.
pub struct Database {
    router: ActorRouter,
    /// Events produced and not yet received, oldest first.
    events: Vec<ActorEvent>,
}

/// Whether `ev` reports that `operation`, with id `op_id`, took the ledger
/// from `before` to `after`.
pub open spec fn reports_execution(
    ev: ActorEvent,
    op_id: u32,
    operation: Operation,
    before: LedgerView,
    after: LedgerView,
) -> bool {
    &&& ev matches ActorEvent::OperationResult { op_id: o, operation: op, result, success, error }
    &&& o == op_id
    &&& op == operation
    &&& (after, result@) == spec_execute(before, operation)
    &&& (success, error) == outcome_of(result@)
}

impl Database {
    /// The business state.
    pub closed spec fn view(&self) -> LedgerView {
        self.router.view()
    }

    /// The events waiting to be received, oldest first.
    pub closed spec fn pending_events(&self) -> Seq<ActorEvent> {
        self.events@
    }

    /// The router is well formed.
    pub closed spec fn wf(&self) -> bool {
        self.router.wf()
    }

    /// An empty database with no pending event.
    pub fn start() -> (db: Database)
        ensures
            db.wf(),
            db.view() == empty_ledger(),
            db.pending_events().len() == 0,
    {
        Database { router: ActorRouter::new(), events: Vec::new() }
    }

    /// Executes a command; its event is queued for `recv`.
    pub fn send(&mut self, cmd: DatabaseCmd)
        requires
            old(self).wf(),
        ensures
            final(self).wf(),
            final(self).pending_events().len() == old(self).pending_events().len() + 1,
            final(self).pending_events().drop_last() == old(self).pending_events(),
            match cmd {
                DatabaseCmd::Execute { op_id, operation } => reports_execution(
                    final(self).pending_events().last(),
                    op_id,
                    operation,
                    old(self).view(),
                    final(self).view(),
                ),
            },
    {
        match cmd {
            DatabaseCmd::Execute { op_id, operation } => {
                let ev = self.router.handle(RouterCmd::Execute { op_id, operation });
                self.events.push(ev);
                assert(self.events@.drop_last() =~= old(self).events@);
            },
        }
    }

    /// Takes the oldest pending event, if any.
    pub fn recv(&mut self) -> (ev: Option<ActorEvent>)
        requires
            old(self).wf(),
        ensures
            final(self).wf(),
            final(self).view() == old(self).view(),
            old(self).pending_events().len() == 0 ==> ev is None
                && final(self).pending_events().len() == 0,
            old(self).pending_events().len() > 0 ==> ev == Some(old(self).pending_events()[0])
                && final(self).pending_events() == old(self).pending_events().subrange(
                1,
                old(self).pending_events().len() as int,
            ),
    {
        if self.events.len() == 0 {
            None
        } else {
            Some(self.events.remove(0))
        }
    }
}

} // verus!
