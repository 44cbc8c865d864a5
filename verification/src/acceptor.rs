//! The accept loop's decisions.
//!
//! The loop itself waits on the listener; what it does with each outcome is
//! decided here. A failed connection is skipped and the loop goes on: only
//! the end of the listener stops it.

use crate::session::ConnectionHandle;
use vstd::prelude::*;

verus! {

/// How one wait on the listener ended.
#[derive(Debug, Clone, Copy, PartialEq, Eq, Structural)]
pub enum AcceptOutcome {
    /// A connection was established.
    Connected(ConnectionHandle),
    /// An incoming connection failed before it was established.
    Failed,
    /// The listener was closed.
    ListenerClosed,
}

/// What the accept loop does next.
#[derive(Debug, Clone, Copy, PartialEq, Eq, Structural)]
pub enum AcceptorAction {
    /// Hand the connection to the server actor, then accept again.
    Forward(ConnectionHandle),
    /// Report the failure, then accept again.
    Skip,
    /// Leave the loop.
    Stop,
}

impl AcceptorAction {
    /// Whether the loop goes on after this action.
    pub open spec fn spec_keeps_accepting(self) -> bool {
        !(self is Stop)
    }

    /// Whether the loop goes on after this action.
    #[verifier::when_used_as_spec(spec_keeps_accepting)]
    pub fn keeps_accepting(self) -> (goes_on: bool)
        ensures
            goes_on == self.spec_keeps_accepting(),
    {
        !matches!(self, AcceptorAction::Stop)
    }
}

/// The action that `outcome` calls for.
pub open spec fn action_for(outcome: AcceptOutcome) -> AcceptorAction {
    match outcome {
        AcceptOutcome::Connected(connection) => AcceptorAction::Forward(connection),
        AcceptOutcome::Failed => AcceptorAction::Skip,
        AcceptOutcome::ListenerClosed => AcceptorAction::Stop,
    }
}

/// Decides what the accept loop does after one wait on the listener. It
/// stops only when the listener was closed.
pub fn on_accept(outcome: AcceptOutcome) -> (action: AcceptorAction)
    ensures
        action == action_for(outcome),
        action.keeps_accepting() <==> !(outcome is ListenerClosed),
{
    match outcome {
        AcceptOutcome::Connected(connection) => AcceptorAction::Forward(connection),
        AcceptOutcome::Failed => AcceptorAction::Skip,
        AcceptOutcome::ListenerClosed => AcceptorAction::Stop,
    }
}

} // verus!
