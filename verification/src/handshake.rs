//! The handshake, step by step.
//!
//! The client opens a stream and sends its `Hello`; the server reads it
//! under a generous limit, publishes `PlayerJoined` and answers on a stream
//! of its own with its `Hello`, which carries the session id and the shared
//! configuration; the client reads that under a small limit. The functions
//! here make and read the contents of those streams. Moving the bytes is the
//! caller's part.

use crate::config::GameConfig;
use crate::packet::{
    decode, decoding, encode, encoding, ClientPacket, DecodeError, Message, Packet, ServerPacket,
};
use crate::server::Event;
use vstd::prelude::*;

verus! {

/// The most bytes that the server reads for a client's `Hello`.
pub const CLIENT_HELLO_LIMIT: usize = 65536;

/// The most bytes that the client reads for the server's `Hello`.
pub const SERVER_HELLO_LIMIT: usize = 1024;

/// A well-formed packet that has no place at this point of the exchange.
#[derive(Debug, Clone, Copy, PartialEq, Eq, Structural)]
pub enum ProtocolError {
    /// The packet is of a variant that the reader does not expect, such as
    /// a server's `Hello` that reaches a server.
    UnexpectedVariant,
}

/// Why a handshake failed on what the peer sent.
#[derive(Debug, Clone, Copy, PartialEq, Eq, Structural)]
pub enum HandshakeError {
    /// The stream's content is no packet.
    Decode(DecodeError),
    /// The stream's content is a packet, but the wrong one.
    Protocol(ProtocolError),
}

/// What a server makes of the content of a client's first stream: the
/// user name, or the reason why the handshake fails.
pub open spec fn client_hello_in(bytes: Seq<u8>) -> Result<Seq<char>, HandshakeError> {
    match decoding(bytes, CLIENT_HELLO_LIMIT as nat) {
        Ok(Message::ClientHello { username }) => Ok(username),
        Ok(Message::ServerHello { .. }) => Err(
            HandshakeError::Protocol(ProtocolError::UnexpectedVariant),
        ),
        Err(error) => Err(HandshakeError::Decode(error)),
    }
}

/// What a client makes of the content of the server's stream: the session
/// id and the configuration, or the reason why the handshake fails.
pub open spec fn server_hello_in(bytes: Seq<u8>) -> Result<(u32, Seq<u8>), HandshakeError> {
    match decoding(bytes, SERVER_HELLO_LIMIT as nat) {
        Ok(Message::ServerHello { session_id, config }) => Ok((session_id, config)),
        Ok(Message::ClientHello { .. }) => Err(
            HandshakeError::Protocol(ProtocolError::UnexpectedVariant),
        ),
        Err(error) => Err(HandshakeError::Decode(error)),
    }
}

/// The content of the stream on which a client introduces itself.
pub fn client_hello(username: String) -> (bytes: Vec<u8>)
    ensures
        bytes@ == encoding(Message::ClientHello { username: username@ }),
        (Message::ClientHello { username: username@ }).fits(),
{
    encode(&Packet::Client(ClientPacket::Hello { username }))
}

/// The content of the stream on which the server answers.
pub fn server_hello(session_id: u32, config: GameConfig) -> (bytes: Vec<u8>)
    ensures
        bytes@ == encoding(Message::ServerHello { session_id, config: config@ }),
        (Message::ServerHello { session_id, config: config@ }).fits(),
{
    encode(&Packet::Server(ServerPacket::Hello { session_id, config }))
}

/// Server side: reads the content of a client's first stream.
pub fn read_client_hello(bytes: &[u8]) -> (result: Result<String, HandshakeError>)
    ensures
        match result {
            Ok(username) => client_hello_in(bytes@) == Ok::<Seq<char>, HandshakeError>(username@),
            Err(error) => client_hello_in(bytes@) == Err::<Seq<char>, HandshakeError>(error),
        },
{
    match decode(bytes, CLIENT_HELLO_LIMIT) {
        Ok(Packet::Client(ClientPacket::Hello { username })) => Ok(username),
        Ok(Packet::Server(_)) => Err(HandshakeError::Protocol(ProtocolError::UnexpectedVariant)),
        Err(error) => Err(HandshakeError::Decode(error)),
    }
}

/// Client side: reads the content of the server's stream.
pub fn read_server_hello(bytes: &[u8]) -> (result: Result<(u32, GameConfig), HandshakeError>)
    ensures
        match result {
            Ok((session_id, config)) => server_hello_in(bytes@) == Ok::<
                (u32, Seq<u8>),
                HandshakeError,
            >((session_id, config@)),
            Err(error) => server_hello_in(bytes@) == Err::<(u32, Seq<u8>), HandshakeError>(error),
        },
{
    match decode(bytes, SERVER_HELLO_LIMIT) {
        Ok(Packet::Server(ServerPacket::Hello { session_id, config })) => Ok((session_id, config)),
        Ok(Packet::Client(_)) => Err(HandshakeError::Protocol(ProtocolError::UnexpectedVariant)),
        Err(error) => Err(HandshakeError::Decode(error)),
    }
}

/// Server side of one handshake. From the content of the client's stream
/// it gives the event to publish for `session_id` and the content of the
/// answering stream. When the content is refused nothing is published and
/// nothing is answered.
pub fn serve_handshake(bytes: &[u8], session_id: u32, config: GameConfig) -> (result: Result<
    (Event, Vec<u8>),
    HandshakeError,
>)
    ensures
        match result {
            Ok((Event::PlayerJoined(username), reply)) => {
                &&& client_hello_in(bytes@) == Ok::<Seq<char>, HandshakeError>(username@)
                &&& reply@ == encoding(Message::ServerHello { session_id, config: config@ })
                &&& (Message::ServerHello { session_id, config: config@ }).fits()
            },
            Err(error) => client_hello_in(bytes@) == Err::<Seq<char>, HandshakeError>(error),
        },
{
    match read_client_hello(bytes) {
        Ok(username) => Ok((Event::PlayerJoined(username), server_hello(session_id, config))),
        Err(error) => Err(error),
    }
}

} // verus!
