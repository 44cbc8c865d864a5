//! The server actor: the one owner of the table of sessions.
//!
//! The actor gets three kinds of input. A new connection is given the next
//! session id and waits for its handshake. A `PlayerJoined` event, published
//! by the handshake of a waiting connection, puts its session into the table.
//! A closed connection leaves the table, or the waiting list. The ids grow by
//! one with every connection and are never used again.

use crate::session::{ClientSession, ConnectionHandle, ConnectionPhase, SessionModel};
use std::collections::HashMap;
use vstd::prelude::*;

verus! {

broadcast use vstd::std_specs::hash::group_hash_axioms;

/// The number of events that may wait for the actor: a handshake that finds
/// the queue full waits until the actor has taken one out.
pub const EVENT_QUEUE_CAPACITY: usize = 128;

/// The number of accepted connections that may wait for the actor.
pub const CONNECTION_QUEUE_CAPACITY: usize = 8;

/// What a handshake reports to the actor.
#[derive(Debug, Clone, PartialEq, Eq)]
pub enum Event {
    /// The client on this connection gave its name.
    PlayerJoined(String),
}

/// One input of the actor.
pub enum ServerOp {
    /// A connection was accepted.
    Connect(ConnectionHandle),
    /// The handshake of this id gave this name.
    Joined(u32, Seq<char>),
    /// The connection of this id failed or ended.
    Closed(u32),
}

/// The actor's state as a mathematical value.
pub struct ServerModel {
    /// The sessions whose handshake is done, by id.
    pub sessions: Map<u32, SessionModel>,
    /// The connections whose handshake is under way, by the id kept for them.
    pub pending: Map<u32, ConnectionHandle>,
    /// The last id given out; 0 before the first.
    pub last_id: u32,
}

impl ServerModel {
    /// The state of a server that has seen no connection.
    pub open spec fn empty() -> ServerModel {
        ServerModel { sessions: Map::empty(), pending: Map::empty(), last_id: 0 }
    }

    /// Every id in use was given out, no id is both waiting and in the
    /// table, and each session is filed under its own id.
    pub open spec fn valid(self) -> bool {
        &&& self.sessions.dom().finite()
        &&& self.pending.dom().finite()
        &&& forall|id: u32| #[trigger]
            self.sessions.contains_key(id) ==> 1 <= id <= self.last_id
                && self.sessions[id].session_id == id && !self.pending.contains_key(id)
        &&& forall|id: u32| #[trigger] self.pending.contains_key(id) ==> 1 <= id <= self.last_id
    }

    /// Whether an id is left for one more connection.
    pub open spec fn has_room(self) -> bool {
        self.last_id < u32::MAX
    }

    /// The id that the next connection gets.
    pub open spec fn next_id(self) -> u32 {
        (self.last_id + 1) as u32
    }

    /// A connection was accepted: it waits under the next id. Without room
    /// nothing changes.
    pub open spec fn connect(self, connection: ConnectionHandle) -> ServerModel {
        if self.has_room() {
            ServerModel {
                sessions: self.sessions,
                pending: self.pending.insert(self.next_id(), connection),
                last_id: self.next_id(),
            }
        } else {
            self
        }
    }

    /// The handshake of `id` gave `username`: a waiting connection moves into
    /// the table. For any other id nothing changes.
    pub open spec fn joined(self, id: u32, username: Seq<char>) -> ServerModel {
        if self.pending.contains_key(id) {
            ServerModel {
                sessions: self.sessions.insert(
                    id,
                    SessionModel { session_id: id, connection: self.pending[id], username },
                ),
                pending: self.pending.remove(id),
                last_id: self.last_id,
            }
        } else {
            self
        }
    }

    /// The connection of `id` failed or ended: it leaves the table and the
    /// waiting list.
    pub open spec fn closed(self, id: u32) -> ServerModel {
        ServerModel {
            sessions: self.sessions.remove(id),
            pending: self.pending.remove(id),
            last_id: self.last_id,
        }
    }

    /// The state after one input.
    pub open spec fn step(self, op: ServerOp) -> ServerModel {
        match op {
            ServerOp::Connect(connection) => self.connect(connection),
            ServerOp::Joined(id, username) => self.joined(id, username),
            ServerOp::Closed(id) => self.closed(id),
        }
    }

    /// The state after a run of inputs, in order.
    pub open spec fn run(self, ops: Seq<ServerOp>) -> ServerModel
        decreases ops.len(),
    {
        if ops.len() == 0 {
            self
        } else {
            self.run(ops.drop_last()).step(ops.last())
        }
    }

    /// What the caller is to do after `op`.
    pub open spec fn action(self, op: ServerOp) -> Action {
        match op {
            ServerOp::Connect(connection) => if self.has_room() {
                Action::Handshake { connection, session_id: self.next_id() }
            } else {
                Action::Refuse { connection }
            },
            ServerOp::Joined(id, _) => if self.pending.contains_key(id) {
                Action::Welcome { connection: self.pending[id], session_id: id }
            } else {
                Action::Nothing
            },
            ServerOp::Closed(_) => Action::Nothing,
        }
    }

    /// The phase of the connection that has, or will have, the id `id`.
    pub open spec fn phase(self, id: u32) -> ConnectionPhase {
        if self.sessions.contains_key(id) {
            ConnectionPhase::Active
        } else if self.pending.contains_key(id) {
            ConnectionPhase::Handshaking
        } else if 1 <= id <= self.last_id {
            ConnectionPhase::Closed
        } else {
            ConnectionPhase::Connecting
        }
    }
}

/// One input of the actor, as its loop receives it.
#[derive(Debug, Clone, PartialEq, Eq)]
pub enum Input {
    /// The acceptor handed over a connection.
    Connected(ConnectionHandle),
    /// The handshake of this id published an event.
    Published(u32, Event),
    /// The connection of this id failed or ended.
    Disconnected(u32),
}

impl View for Input {
    type V = ServerOp;

    open spec fn view(&self) -> ServerOp {
        match self {
            Input::Connected(connection) => ServerOp::Connect(*connection),
            Input::Published(id, Event::PlayerJoined(username)) => ServerOp::Joined(*id, username@),
            Input::Disconnected(id) => ServerOp::Closed(*id),
        }
    }
}

/// What the actor's loop is to do after an input.
#[derive(Debug, Clone, Copy, PartialEq, Eq, Structural)]
pub enum Action {
    /// Run the handshake of `connection`; it carries `session_id`.
    Handshake { connection: ConnectionHandle, session_id: u32 },
    /// No id is left: close `connection`.
    Refuse { connection: ConnectionHandle },
    /// The session is in the table: streams may be opened on `connection`.
    Welcome { connection: ConnectionHandle, session_id: u32 },
    /// Nothing.
    Nothing,
}

/// The server actor.
pub struct Server {
    clients: HashMap<u32, ClientSession>,
    pending: HashMap<u32, ConnectionHandle>,
    last_id: u32,
}

impl View for Server {
    type V = ServerModel;

    closed spec fn view(&self) -> ServerModel {
        ServerModel {
            sessions: self.clients@.map_values(|session: ClientSession| session@),
            pending: self.pending@,
            last_id: self.last_id,
        }
    }
}

impl Server {
    /// The invariant of the actor's state.
    pub open spec fn wf(&self) -> bool {
        self@.valid()
    }

    /// A server that has seen no connection.
    pub fn new() -> (server: Server)
        ensures
            server.wf(),
            server@ == ServerModel::empty(),
    {
        let server = Server { clients: HashMap::new(), pending: HashMap::new(), last_id: 0 };
        assert(server@.sessions =~= Map::empty());
        server
    }

    /// Takes in an accepted connection and returns the session id kept for
    /// it, which its handshake will carry. The id is one more than the last
    /// one given out. `None`, with nothing changed, when the ids have run
    /// out.
    pub fn on_connect(&mut self, connection: ConnectionHandle) -> (slot: Option<u32>)
        requires
            old(self).wf(),
        ensures
            final(self).wf(),
            final(self)@ == old(self)@.connect(connection),
            slot == if old(self)@.has_room() {
                Some(old(self)@.next_id())
            } else {
                None
            },
    {
        if self.last_id == u32::MAX {
            return None;
        }
        let id: u32 = self.last_id + 1;
        self.last_id = id;
        self.pending.insert(id, connection);
        Some(id)
    }

    /// Handles an event that the handshake of `id` published. `PlayerJoined`
    /// for a waiting connection puts its session into the table and returns
    /// the connection, on which the caller may now open streams. An event
    /// for an id that is not waiting changes nothing and returns `None`.
    pub fn on_event(&mut self, id: u32, event: Event) -> (connection: Option<ConnectionHandle>)
        requires
            old(self).wf(),
        ensures
            final(self).wf(),
            match event {
                Event::PlayerJoined(username) => final(self)@ == old(self)@.joined(id, username@),
            },
            connection == if old(self)@.pending.contains_key(id) {
                Some(old(self)@.pending[id])
            } else {
                None
            },
    {
        match self.pending.remove(&id) {
            None => {
                assert(self.pending@ =~= old(self).pending@);
                None
            },
            Some(connection) => {
                match event {
                    Event::PlayerJoined(username) => {
                        let ghost name = username@;
                        let session = ClientSession::new(id, connection, username);
                        self.clients.insert(id, session);
                        assert(self@.sessions =~= old(self)@.sessions.insert(
                            id,
                            SessionModel { session_id: id, connection, username: name },
                        ));
                    },
                }
                Some(connection)
            },
        }
    }

    /// Forgets the connection of `id`, whose handshake failed or whose
    /// transport ended. Returns whether the id was in use.
    pub fn on_disconnect(&mut self, id: u32) -> (known: bool)
        requires
            old(self).wf(),
        ensures
            final(self).wf(),
            final(self)@ == old(self)@.closed(id),
            known == (old(self)@.sessions.contains_key(id) || old(self)@.pending.contains_key(id)),
    {
        let waiting = self.pending.remove(&id);
        let active = self.clients.remove(&id);
        assert(self@.sessions =~= old(self)@.sessions.remove(id));
        waiting.is_some() || active.is_some()
    }

    /// One turn of the actor's loop: takes in `input`, moves to the next
    /// state and says what is to be done.
    pub fn handle(&mut self, input: Input) -> (action: Action)
        requires
            old(self).wf(),
        ensures
            final(self).wf(),
            final(self)@ == old(self)@.step(input@),
            action == old(self)@.action(input@),
    {
        match input {
            Input::Connected(connection) => match self.on_connect(connection) {
                Some(session_id) => Action::Handshake { connection, session_id },
                None => Action::Refuse { connection },
            },
            Input::Published(id, event) => match self.on_event(id, event) {
                Some(connection) => Action::Welcome { connection, session_id: id },
                None => Action::Nothing,
            },
            Input::Disconnected(id) => {
                self.on_disconnect(id);
                Action::Nothing
            },
        }
    }

    /// The session of `id`; `None` for an id that is not in the table.
    pub fn get(&self, id: u32) -> (session: Option<&ClientSession>)
        ensures
            match session {
                Some(session) => self@.sessions.contains_key(id) && session@ == self@.sessions[id],
                None => !self@.sessions.contains_key(id),
            },
    {
        self.clients.get(&id)
    }

    /// The number of sessions in the table.
    pub fn len(&self) -> (count: usize)
        ensures
            count == self@.sessions.len(),
    {
        proof {
            assert(self@.sessions.dom() =~= self.clients@.dom());
        }
        self.clients.len()
    }

    /// The last session id that was given out; 0 before the first.
    pub fn last_id(&self) -> (id: u32)
        ensures
            id == self@.last_id,
    {
        self.last_id
    }

    /// The phase of the connection that has, or will have, the id `id`.
    pub fn phase(&self, id: u32) -> (phase: ConnectionPhase)
        ensures
            phase == self@.phase(id),
    {
        if self.clients.contains_key(&id) {
            ConnectionPhase::Active
        } else if self.pending.contains_key(&id) {
            ConnectionPhase::Handshaking
        } else if 1 <= id && id <= self.last_id {
            ConnectionPhase::Closed
        } else {
            ConnectionPhase::Connecting
        }
    }
}

} // verus!
