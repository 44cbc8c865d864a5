//! The packet codec.
//!
//! One message travels as the whole content of one stream. It starts with a
//! four-byte tag that names the variant; the fields follow in order. Integers
//! are little-endian; a string or a blob is its length in eight bytes, then
//! its bytes. Bytes after the last field are ignored.

use crate::config::GameConfig;
use crate::wire::{get_u32, get_u64, le_bound, le_bytes, le_value, put_u32, put_u64};
use vstd::prelude::*;
use vstd::slice::*;
use vstd::utf8::*;

verus! {

/// Packets sent from the client to the server.
#[derive(Debug, Clone, PartialEq, Eq)]
pub enum ClientPacket {
    Hello { username: String },
}

/// Packets sent from the server to the client.
#[derive(Debug, Clone, PartialEq, Eq)]
pub enum ServerPacket {
    Hello { session_id: u32, config: GameConfig },
}

/// Any packet of the protocol, whichever peer sent it.
#[derive(Debug, Clone, PartialEq, Eq)]
pub enum Packet {
    Client(ClientPacket),
    Server(ServerPacket),
}

/// Why a buffer was not decoded.
#[derive(Debug, Clone, Copy, PartialEq, Eq, Structural)]
pub enum DecodeError {
    /// The buffer is longer than the limit given for it.
    TooLarge,
    /// The tag is unknown, or a field is cut short or is not text.
    Malformed,
}

/// A packet as a mathematical value.
pub enum Message {
    ClientHello { username: Seq<char> },
    ServerHello { session_id: u32, config: Seq<u8> },
}

impl Message {
    /// The length of every string and blob fits the eight bytes that carry
    /// it. This holds of every packet that a machine can hold.
    pub open spec fn fits(self) -> bool {
        match self {
            Message::ClientHello { username } => encode_utf8(username).len() < le_bound(8),
            Message::ServerHello { config, .. } => config.len() < le_bound(8),
        }
    }
}

impl View for ClientPacket {
    type V = Message;

    open spec fn view(&self) -> Message {
        match self {
            ClientPacket::Hello { username } => Message::ClientHello { username: username@ },
        }
    }
}

impl View for ServerPacket {
    type V = Message;

    open spec fn view(&self) -> Message {
        match self {
            ServerPacket::Hello { session_id, config } => Message::ServerHello {
                session_id: *session_id,
                config: config@,
            },
        }
    }
}

impl View for Packet {
    type V = Message;

    open spec fn view(&self) -> Message {
        match self {
            Packet::Client(packet) => packet@,
            Packet::Server(packet) => packet@,
        }
    }
}

/// The tag of a client's `Hello`.
pub const TAG_CLIENT_HELLO: u32 = 0;

/// The tag of a server's `Hello`.
pub const TAG_SERVER_HELLO: u32 = 1;

/// A field of variable length: its length in eight bytes, then its bytes.
pub open spec fn length_prefixed(body: Seq<u8>) -> Seq<u8> {
    le_bytes(body.len(), 8) + body
}

/// The bytes that stand for `message`.
pub open spec fn encoding(message: Message) -> Seq<u8> {
    match message {
        Message::ClientHello { username } => le_bytes(TAG_CLIENT_HELLO as nat, 4)
            + length_prefixed(encode_utf8(username)),
        Message::ServerHello { session_id, config } => le_bytes(TAG_SERVER_HELLO as nat, 4)
            + le_bytes(session_id as nat, 4) + length_prefixed(config),
    }
}

/// The body of the variable-length field that `bytes` starts with, if
/// `bytes` holds all of it.
pub open spec fn parse_length_prefixed(bytes: Seq<u8>) -> Option<Seq<u8>> {
    if bytes.len() < 8 {
        None
    } else {
        let len = le_value(bytes.take(8));
        if len > bytes.len() - 8 {
            None
        } else {
            Some(bytes.subrange(8, 8 + len as int))
        }
    }
}

/// The message that `bytes` starts with, if there is one.
pub open spec fn parsing(bytes: Seq<u8>) -> Option<Message> {
    if bytes.len() < 4 {
        None
    } else {
        let tag = le_value(bytes.take(4));
        let fields = bytes.skip(4);
        if tag == TAG_CLIENT_HELLO {
            match parse_length_prefixed(fields) {
                Some(name) => if valid_utf8(name) {
                    Some(Message::ClientHello { username: decode_utf8(name) })
                } else {
                    None
                },
                None => None,
            }
        } else if tag == TAG_SERVER_HELLO {
            if fields.len() < 4 {
                None
            } else {
                match parse_length_prefixed(fields.skip(4)) {
                    Some(config) => Some(
                        Message::ServerHello {
                            session_id: le_value(fields.take(4)) as u32,
                            config,
                        },
                    ),
                    None => None,
                }
            }
        } else {
            None
        }
    }
}

/// What decoding `bytes` under `size_limit` gives.
pub open spec fn decoding(bytes: Seq<u8>, size_limit: nat) -> Result<Message, DecodeError> {
    if bytes.len() > size_limit {
        Err(DecodeError::TooLarge)
    } else {
        match parsing(bytes) {
            Some(message) => Ok(message),
            None => Err(DecodeError::Malformed),
        }
    }
}

/// The mathematical value of a decoder's result.
pub open spec fn decoded(result: Result<Packet, DecodeError>) -> Result<Message, DecodeError> {
    match result {
        Ok(packet) => Ok(packet@),
        Err(error) => Err(error),
    }
}

/// `String::from_utf8` of std: the text that `bytes` spell. It is `Some`
/// exactly when the bytes are well-formed UTF-8, and the string then holds
/// these very bytes.
#[verifier::external_body]
fn string_from_utf8(bytes: Vec<u8>) -> (text: Option<String>)
    ensures
        text is Some <==> valid_utf8(bytes@),
        text matches Some(s) ==> encode_utf8(s@) == bytes@,
{
    match String::from_utf8(bytes) {
        Ok(s) => Some(s),
        Err(_) => None,
    }
}

/// Appends a variable-length field that holds `body`.
fn put_length_prefixed(buf: &mut Vec<u8>, body: &[u8])
    ensures
        final(buf)@ == old(buf)@ + length_prefixed(body@),
{
    let len: usize = body.len();
    put_u64(buf, len as u64);
    buf.extend_from_slice(body);
    assert(buf@ =~= old(buf)@ + length_prefixed(body@));
}

/// Reads the variable-length field that starts at `at`.
fn read_length_prefixed(bytes: &[u8], at: usize) -> (body: Option<Vec<u8>>)
    requires
        at <= bytes@.len(),
    ensures
        match body {
            Some(body) => parse_length_prefixed(bytes@.skip(at as int)) == Some(body@),
            None => parse_length_prefixed(bytes@.skip(at as int)) is None,
        },
{
    let end: usize = bytes.len();
    let ghost field = bytes@.skip(at as int);
    if end - at < 8 {
        return None;
    }
    let len: u64 = get_u64(bytes, at);
    assert(field.take(8) =~= bytes@.subrange(at as int, at + 8));
    let room: usize = end - at - 8;
    if len > room as u64 {
        return None;
    }
    let start: usize = at + 8;
    let body = slice_to_vec(slice_subrange(bytes, start, start + len as usize));
    assert(body@ =~= field.subrange(8, 8 + len as int));
    Some(body)
}

/// The bytes of `packet`. Every packet has them, and the same packet has
/// the same bytes.
pub fn encode(packet: &Packet) -> (bytes: Vec<u8>)
    ensures
        bytes@ == encoding(packet@),
        packet@.fits(),
{
    let mut buf: Vec<u8> = Vec::new();
    proof {
        reveal_with_fuel(le_bound, 9);
    }
    match packet {
        Packet::Client(ClientPacket::Hello { username }) => {
            let name: &[u8] = username.as_str().as_bytes();
            assert(name@.len() == spec_slice_len(name));
            put_u32(&mut buf, TAG_CLIENT_HELLO);
            put_length_prefixed(&mut buf, name);
        },
        Packet::Server(ServerPacket::Hello { session_id, config }) => {
            let blob: &[u8] = config.as_bytes();
            assert(blob@.len() == spec_slice_len(blob));
            put_u32(&mut buf, TAG_SERVER_HELLO);
            put_u32(&mut buf, *session_id);
            put_length_prefixed(&mut buf, blob);
        },
    }
    assert(buf@ =~= encoding(packet@));
    buf
}

/// Decodes the packet that `bytes` starts with.
///
/// A buffer longer than `size_limit` is refused as `TooLarge` whatever it
/// holds. Any other buffer gives the packet it starts with, or `Malformed`
/// when it starts with none.
pub fn decode(bytes: &[u8], size_limit: usize) -> (result: Result<Packet, DecodeError>)
    ensures
        decoded(result) == decoding(bytes@, size_limit as nat),
        bytes@.len() > size_limit ==> result == Err::<Packet, DecodeError>(DecodeError::TooLarge),
{
    let end: usize = bytes.len();
    if end > size_limit {
        return Err(DecodeError::TooLarge);
    }
    if end < 4 {
        return Err(DecodeError::Malformed);
    }
    let tag: u32 = get_u32(bytes, 0);
    assert(bytes@.take(4) =~= bytes@.subrange(0, 4));
    if tag == TAG_CLIENT_HELLO {
        match read_length_prefixed(bytes, 4) {
            Some(name) => {
                match string_from_utf8(name) {
                    Some(username) => {
                        proof {
                            encode_utf8_decode_utf8(username@);
                        }
                        Ok(Packet::Client(ClientPacket::Hello { username }))
                    },
                    None => Err(DecodeError::Malformed),
                }
            },
            None => Err(DecodeError::Malformed),
        }
    } else if tag == TAG_SERVER_HELLO {
        if end < 8 {
            return Err(DecodeError::Malformed);
        }
        let session_id: u32 = get_u32(bytes, 4);
        assert(bytes@.skip(4).take(4) =~= bytes@.subrange(4, 8));
        assert(bytes@.skip(4).skip(4) =~= bytes@.skip(8));
        match read_length_prefixed(bytes, 8) {
            Some(data) => Ok(
                Packet::Server(ServerPacket::Hello { session_id, config: GameConfig::new(data) }),
            ),
            None => Err(DecodeError::Malformed),
        }
    } else {
        Err(DecodeError::Malformed)
    }
}

} // verus!
