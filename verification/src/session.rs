//! One connection as the server sees it: its handle, the phases it goes
//! through, and the record kept for it once the handshake is done.

use vstd::prelude::*;

verus! {

/// Names one live connection. The transport keeps the connection itself;
/// the server's table only carries this name.
#[derive(Debug, Clone, Copy, PartialEq, Eq, Hash, Structural)]
pub struct ConnectionHandle {
    pub id: u64,
}

/// Where a connection stands in its life.
#[derive(Debug, Clone, Copy, PartialEq, Eq, Hash, Structural)]
pub enum ConnectionPhase {
    /// Not yet accepted.
    Connecting,
    /// Accepted; the two `Hello` packets are under way.
    Handshaking,
    /// Both `Hello` packets were exchanged: the session is in the table.
    Active,
    /// Failed or terminated. Nothing leads out of this phase.
    Closed,
}

/// What can happen to a connection.
#[derive(Debug, Clone, Copy, PartialEq, Eq, Hash, Structural)]
pub enum ConnectionEvent {
    /// The listener accepted the connection.
    Accepted,
    /// Both `Hello` packets were exchanged.
    HelloExchanged,
    /// A transport, decode or protocol failure.
    Failed,
    /// The transport reported the end of the connection.
    Terminated,
}

impl ConnectionPhase {
    /// The phase after `event`. A failure or a termination closes the
    /// connection from every phase; an event that does not belong to the
    /// phase closes it too, but for a closed connection, which stays closed.
    pub open spec fn next(self, event: ConnectionEvent) -> ConnectionPhase {
        match (self, event) {
            (ConnectionPhase::Connecting, ConnectionEvent::Accepted) => {
                ConnectionPhase::Handshaking
            },
            (ConnectionPhase::Handshaking, ConnectionEvent::HelloExchanged) => {
                ConnectionPhase::Active
            },
            _ => ConnectionPhase::Closed,
        }
    }

    /// Moves the connection on by one event.
    pub fn advance(self, event: ConnectionEvent) -> (phase: ConnectionPhase)
        ensures
            phase == self.next(event),
    {
        match (self, event) {
            (ConnectionPhase::Connecting, ConnectionEvent::Accepted) => {
                ConnectionPhase::Handshaking
            },
            (ConnectionPhase::Handshaking, ConnectionEvent::HelloExchanged) => {
                ConnectionPhase::Active
            },
            _ => ConnectionPhase::Closed,
        }
    }

    /// The phase after a run of events.
    pub open spec fn after(self, events: Seq<ConnectionEvent>) -> ConnectionPhase
        decreases events.len(),
    {
        if events.len() == 0 {
            self
        } else {
            self.after(events.drop_last()).next(events.last())
        }
    }
}

/// The record of one client whose handshake is done.
#[derive(Debug, Clone, PartialEq, Eq)]
pub struct ClientSession {
    session_id: u32,
    connection: ConnectionHandle,
    username: String,
}

/// A session as a mathematical value.
pub struct SessionModel {
    pub session_id: u32,
    pub connection: ConnectionHandle,
    pub username: Seq<char>,
}

impl View for ClientSession {
    type V = SessionModel;

    closed spec fn view(&self) -> SessionModel {
        SessionModel {
            session_id: self.session_id,
            connection: self.connection,
            username: self.username@,
        }
    }
}

impl ClientSession {
    /// The record of the client `username` on `connection`, known as
    /// `session_id`.
    pub fn new(session_id: u32, connection: ConnectionHandle, username: String) -> (session:
        ClientSession)
        ensures
            session@ == (SessionModel { session_id, connection, username: username@ }),
    {
        ClientSession { session_id, connection, username }
    }

    pub fn session_id(&self) -> (id: u32)
        ensures
            id == self@.session_id,
    {
        self.session_id
    }

    pub fn connection(&self) -> (connection: ConnectionHandle)
        ensures
            connection == self@.connection,
    {
        self.connection
    }

    pub fn username(&self) -> (username: &String)
        ensures
            username@ == self@.username,
    {
        &self.username
    }
}

} // verus!
