//! The client's side of a session.
//!
//! The client connects, sends its `Hello`, and waits for the server's. When
//! that arrives and is accepted the session is active, and the client keeps
//! the session id and the configuration. Any failure ends the session for
//! good: the client reports it once and never tries again.

use crate::config::GameConfig;
use crate::handshake::{client_hello, read_server_hello, server_hello_in, HandshakeError};
use crate::packet::{encoding, DecodeError, Message};
use vstd::prelude::*;

verus! {

/// Why a client's session ended.
#[derive(Debug, Clone, Copy, PartialEq, Eq, Structural)]
pub enum ClientError {
    /// The connection could not be made, or broke.
    Transport,
    /// The server's answer was refused.
    Handshake(HandshakeError),
}

/// Where the client stands.
#[derive(Debug, Clone, PartialEq, Eq)]
pub enum ClientPhase {
    /// The connection is being made.
    Connecting,
    /// The client's `Hello` is sent; the server's is awaited.
    AwaitingHello,
    /// The handshake is done.
    Active { session_id: u32, config: GameConfig },
    /// The session ended with an error.
    Failed(ClientError),
}

/// What happened on the client's connection.
#[derive(Debug, Clone, PartialEq, Eq)]
pub enum ClientEvent {
    /// The connection is established.
    Connected,
    /// A stream from the server was read to its end, within the limit.
    StreamRead(Vec<u8>),
    /// A stream from the server held more than the limit allows.
    StreamTooLarge,
    /// Connecting, or a stream, or the connection failed.
    TransportFailed,
}

/// What the client's loop is to do after an event.
#[derive(Debug, Clone, PartialEq, Eq)]
pub enum ClientAction {
    /// Open a stream, send these bytes on it and close it.
    SendHello(Vec<u8>),
    /// The session is active.
    Ready,
    /// Report the error to the caller and give up the connection.
    Fail(ClientError),
    /// Nothing.
    Nothing,
}

/// A client's phase as a mathematical value.
pub enum PhaseModel {
    Connecting,
    AwaitingHello,
    Active { session_id: u32, config: Seq<u8> },
    Failed(ClientError),
}

/// A client's event as a mathematical value.
pub enum EventModel {
    Connected,
    StreamRead(Seq<u8>),
    StreamTooLarge,
    TransportFailed,
}

/// A client's action as a mathematical value.
pub enum ActionModel {
    SendHello(Seq<u8>),
    Ready,
    Fail(ClientError),
    Nothing,
}

impl View for ClientPhase {
    type V = PhaseModel;

    open spec fn view(&self) -> PhaseModel {
        match self {
            ClientPhase::Connecting => PhaseModel::Connecting,
            ClientPhase::AwaitingHello => PhaseModel::AwaitingHello,
            ClientPhase::Active { session_id, config } => PhaseModel::Active {
                session_id: *session_id,
                config: config@,
            },
            ClientPhase::Failed(error) => PhaseModel::Failed(*error),
        }
    }
}

impl View for ClientEvent {
    type V = EventModel;

    open spec fn view(&self) -> EventModel {
        match self {
            ClientEvent::Connected => EventModel::Connected,
            ClientEvent::StreamRead(bytes) => EventModel::StreamRead(bytes@),
            ClientEvent::StreamTooLarge => EventModel::StreamTooLarge,
            ClientEvent::TransportFailed => EventModel::TransportFailed,
        }
    }
}

impl View for ClientAction {
    type V = ActionModel;

    open spec fn view(&self) -> ActionModel {
        match self {
            ClientAction::SendHello(bytes) => ActionModel::SendHello(bytes@),
            ClientAction::Ready => ActionModel::Ready,
            ClientAction::Fail(error) => ActionModel::Fail(*error),
            ClientAction::Nothing => ActionModel::Nothing,
        }
    }
}

/// A client as a mathematical value.
pub struct ClientModel {
    pub username: Seq<char>,
    pub phase: PhaseModel,
}

impl ClientModel {
    /// The phase after `event`.
    pub open spec fn next_phase(self, event: EventModel) -> PhaseModel {
        match (self.phase, event) {
            (PhaseModel::Failed(error), _) => PhaseModel::Failed(error),
            (_, EventModel::TransportFailed) => PhaseModel::Failed(ClientError::Transport),
            (PhaseModel::Connecting, EventModel::Connected) => PhaseModel::AwaitingHello,
            (PhaseModel::AwaitingHello, EventModel::StreamRead(bytes)) => match server_hello_in(
                bytes,
            ) {
                Ok((session_id, config)) => PhaseModel::Active { session_id, config },
                Err(error) => PhaseModel::Failed(ClientError::Handshake(error)),
            },
            (PhaseModel::AwaitingHello, EventModel::StreamTooLarge) => PhaseModel::Failed(
                ClientError::Handshake(HandshakeError::Decode(DecodeError::TooLarge)),
            ),
            (phase, _) => phase,
        }
    }

    /// The client after `event`.
    pub open spec fn step(self, event: EventModel) -> ClientModel {
        ClientModel { username: self.username, phase: self.next_phase(event) }
    }

    /// What is to be done after `event`.
    pub open spec fn action(self, event: EventModel) -> ActionModel {
        match (self.phase, self.next_phase(event)) {
            (PhaseModel::Failed(_), _) => ActionModel::Nothing,
            (_, PhaseModel::Failed(error)) => ActionModel::Fail(error),
            (PhaseModel::Connecting, PhaseModel::AwaitingHello) => ActionModel::SendHello(
                encoding(Message::ClientHello { username: self.username }),
            ),
            (PhaseModel::AwaitingHello, PhaseModel::Active { .. }) => ActionModel::Ready,
            _ => ActionModel::Nothing,
        }
    }
}

/// A client of the game server.
pub struct Client {
    username: String,
    phase: ClientPhase,
}

impl View for Client {
    type V = ClientModel;

    closed spec fn view(&self) -> ClientModel {
        ClientModel { username: self.username@, phase: self.phase@ }
    }
}

impl Client {
    /// A client that will introduce itself as `username`. Its connection is
    /// still to be made.
    pub fn new(username: String) -> (client: Client)
        ensures
            client@ == (ClientModel { username: username@, phase: PhaseModel::Connecting }),
    {
        Client { username, phase: ClientPhase::Connecting }
    }

    /// Where the client stands.
    pub fn phase(&self) -> (phase: &ClientPhase)
        ensures
            phase@ == self@.phase,
    {
        &self.phase
    }

    /// The session id that the server gave, once the session is active.
    pub fn session_id(&self) -> (session_id: Option<u32>)
        ensures
            session_id == match self@.phase {
                PhaseModel::Active { session_id, .. } => Some(session_id),
                _ => None,
            },
    {
        match &self.phase {
            ClientPhase::Active { session_id, .. } => Some(*session_id),
            _ => None,
        }
    }

    /// One turn of the client's loop: takes in `event`, moves to the next
    /// phase and says what is to be done.
    pub fn handle(&mut self, event: ClientEvent) -> (action: ClientAction)
        ensures
            final(self)@ == old(self)@.step(event@),
            action@ == old(self)@.action(event@),
    {
        match &self.phase {
            ClientPhase::Failed(_) => {
                return ClientAction::Nothing;
            },
            _ => {},
        }
        match event {
            ClientEvent::TransportFailed => {
                self.phase = ClientPhase::Failed(ClientError::Transport);
                ClientAction::Fail(ClientError::Transport)
            },
            ClientEvent::Connected => {
                match &self.phase {
                    ClientPhase::Connecting => {
                        self.phase = ClientPhase::AwaitingHello;
                        ClientAction::SendHello(client_hello(self.username.clone()))
                    },
                    _ => ClientAction::Nothing,
                }
            },
            ClientEvent::StreamTooLarge => {
                match &self.phase {
                    ClientPhase::AwaitingHello => {
                        let error = ClientError::Handshake(
                            HandshakeError::Decode(DecodeError::TooLarge),
                        );
                        self.phase = ClientPhase::Failed(error);
                        ClientAction::Fail(error)
                    },
                    _ => ClientAction::Nothing,
                }
            },
            ClientEvent::StreamRead(bytes) => {
                match &self.phase {
                    ClientPhase::AwaitingHello => match read_server_hello(bytes.as_slice()) {
                        Ok((session_id, config)) => {
                            self.phase = ClientPhase::Active { session_id, config };
                            ClientAction::Ready
                        },
                        Err(error) => {
                            self.phase = ClientPhase::Failed(ClientError::Handshake(error));
                            ClientAction::Fail(ClientError::Handshake(error))
                        },
                    },
                    _ => ClientAction::Nothing,
                }
            },
        }
    }
}

/// A failed client stays failed and asks for nothing more: there is no
/// second attempt.
pub proof fn lemma_failure_is_final(client: ClientModel, event: EventModel)
    requires
        client.phase is Failed,
    ensures
        client.step(event) == client,
        client.action(event) == ActionModel::Nothing,
{
}

/// A client reports at most one error: the action `Fail` comes only with
/// the step into `Failed`.
pub proof fn lemma_error_is_reported_once(client: ClientModel, event: EventModel)
    ensures
        client.action(event) is Fail <==> !(client.phase is Failed) && client.step(event).phase
            is Failed,
        client.action(event) matches ActionModel::Fail(error) ==> client.step(event).phase
            == PhaseModel::Failed(error),
{
}

/// A client becomes active only by accepting the server's `Hello`, and it
/// then holds the session id and the configuration that the `Hello` carries.
pub proof fn lemma_active_holds_servers_answer(client: ClientModel, event: EventModel)
    requires
        !(client.phase is Active),
        client.step(event).phase is Active,
    ensures
        client.phase is AwaitingHello,
        event matches EventModel::StreamRead(bytes) && server_hello_in(bytes) == Ok::<
            (u32, Seq<u8>),
            HandshakeError,
        >((client.step(event).phase->session_id, client.step(event).phase->config)),
{
}

} // verus!
