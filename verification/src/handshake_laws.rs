//! What holds of every handshake.

use crate::handshake::{
    client_hello_in, server_hello_in, HandshakeError, ProtocolError, CLIENT_HELLO_LIMIT,
    SERVER_HELLO_LIMIT,
};
use crate::packet::{encoding, Message};
use crate::packet_laws::lemma_decode_encode;
use crate::wire::lemma_le_bytes_len;
use vstd::prelude::*;
use vstd::utf8::*;

verus! {

/// The length of a packet's bytes: twelve bytes and the name for a client's
/// `Hello`, sixteen bytes and the configuration for a server's.
pub proof fn lemma_encoding_len(message: Message)
    ensures
        encoding(message).len() == match message {
            Message::ClientHello { username } => 12 + encode_utf8(username).len(),
            Message::ServerHello { config, .. } => 16 + config.len(),
        },
{
    match message {
        Message::ClientHello { username } => {
            lemma_le_bytes_len(0, 4);
            lemma_le_bytes_len(encode_utf8(username).len(), 8);
        },
        Message::ServerHello { session_id, config } => {
            lemma_le_bytes_len(1, 4);
            lemma_le_bytes_len(session_id as nat, 4);
            lemma_le_bytes_len(config.len(), 8);
        },
    }
}

/// The server reads the name that the client sent, whenever the client's
/// `Hello` is within the server's limit.
pub proof fn lemma_client_hello_is_read(username: Seq<char>)
    requires
        12 + encode_utf8(username).len() <= CLIENT_HELLO_LIMIT,
    ensures
        client_hello_in(encoding(Message::ClientHello { username })) == Ok::<
            Seq<char>,
            HandshakeError,
        >(username),
{
    let message = Message::ClientHello { username };
    lemma_encoding_len(message);
    reveal_with_fuel(crate::wire::le_bound, 9);
    lemma_decode_encode(message, Seq::empty(), CLIENT_HELLO_LIMIT as nat);
    assert(encoding(message) + Seq::<u8>::empty() =~= encoding(message));
}

/// Both sides agree on the session: the client reads the very id and
/// configuration that the server sent, whenever the server's `Hello` is
/// within the client's limit.
pub proof fn lemma_server_hello_is_read(session_id: u32, config: Seq<u8>)
    requires
        16 + config.len() <= SERVER_HELLO_LIMIT,
    ensures
        server_hello_in(encoding(Message::ServerHello { session_id, config })) == Ok::<
            (u32, Seq<u8>),
            HandshakeError,
        >((session_id, config)),
{
    let message = Message::ServerHello { session_id, config };
    lemma_encoding_len(message);
    reveal_with_fuel(crate::wire::le_bound, 9);
    lemma_decode_encode(message, Seq::empty(), SERVER_HELLO_LIMIT as nat);
    assert(encoding(message) + Seq::<u8>::empty() =~= encoding(message));
}

/// A `Hello` that reaches a peer of the same side is refused as an
/// unexpected variant, whenever it is within that reader's limit.
pub proof fn lemma_hello_of_same_side_is_refused(
    username: Seq<char>,
    session_id: u32,
    config: Seq<u8>,
)
    ensures
        16 + config.len() <= CLIENT_HELLO_LIMIT ==> client_hello_in(
            encoding(Message::ServerHello { session_id, config }),
        ) == Err::<Seq<char>, HandshakeError>(
            HandshakeError::Protocol(ProtocolError::UnexpectedVariant),
        ),
        12 + encode_utf8(username).len() <= SERVER_HELLO_LIMIT ==> server_hello_in(
            encoding(Message::ClientHello { username }),
        ) == Err::<(u32, Seq<u8>), HandshakeError>(
            HandshakeError::Protocol(ProtocolError::UnexpectedVariant),
        ),
{
    reveal_with_fuel(crate::wire::le_bound, 9);
    let server = Message::ServerHello { session_id, config };
    let client = Message::ClientHello { username };
    lemma_encoding_len(server);
    lemma_encoding_len(client);
    assert(encoding(server) + Seq::<u8>::empty() =~= encoding(server));
    assert(encoding(client) + Seq::<u8>::empty() =~= encoding(client));
    if 16 + config.len() <= CLIENT_HELLO_LIMIT {
        lemma_decode_encode(server, Seq::empty(), CLIENT_HELLO_LIMIT as nat);
    }
    if 12 + encode_utf8(username).len() <= SERVER_HELLO_LIMIT {
        lemma_decode_encode(client, Seq::empty(), SERVER_HELLO_LIMIT as nat);
    }
}

} // verus!
