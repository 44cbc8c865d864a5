//! What holds of the codec for every packet and every buffer.

use crate::packet::{
    decoding, encoding, length_prefixed, parse_length_prefixed, parsing, DecodeError, Message,
    TAG_CLIENT_HELLO, TAG_SERVER_HELLO,
};
use crate::wire::{
    le_bound, le_bytes, le_value, lemma_le_bound_positive, lemma_le_bytes_len,
    lemma_le_bytes_of_value, lemma_le_value_bound, lemma_le_value_of_bytes,
};
use vstd::prelude::*;
use vstd::utf8::*;

verus! {

/// A variable-length field is read back whatever follows it.
pub proof fn lemma_parse_length_prefixed(body: Seq<u8>, after: Seq<u8>)
    requires
        body.len() < le_bound(8),
    ensures
        parse_length_prefixed(length_prefixed(body) + after) == Some(body),
{
    let field = length_prefixed(body) + after;
    lemma_le_bytes_len(body.len(), 8);
    assert(field.take(8) =~= le_bytes(body.len(), 8));
    lemma_le_value_of_bytes(body.len(), 8);
    assert(field.subrange(8, 8 + body.len() as int) =~= body);
}

/// A variable-length field that is cut short is not read.
pub proof fn lemma_parse_length_prefixed_cut(body: Seq<u8>, n: nat)
    requires
        body.len() < le_bound(8),
        n < 8 + body.len(),
    ensures
        parse_length_prefixed(length_prefixed(body).take(n as int)) is None,
{
    let field = length_prefixed(body).take(n as int);
    lemma_le_bytes_len(body.len(), 8);
    if n >= 8 {
        assert(field.take(8) =~= le_bytes(body.len(), 8));
        lemma_le_value_of_bytes(body.len(), 8);
    }
}

/// The field that was read stands at the start of the buffer, and its
/// length fits eight bytes.
pub proof fn lemma_parsed_length_prefixed(bytes: Seq<u8>)
    requires
        parse_length_prefixed(bytes) is Some,
    ensures
        ({
            let body = parse_length_prefixed(bytes)->Some_0;
            &&& body.len() < le_bound(8)
            &&& 8 + body.len() <= bytes.len()
            &&& bytes.take(8 + body.len() as int) == length_prefixed(body)
        }),
{
    let body = parse_length_prefixed(bytes)->Some_0;
    lemma_le_value_bound(bytes.take(8));
    lemma_le_bytes_of_value(bytes.take(8));
    assert(bytes.take(8 + body.len() as int) =~= length_prefixed(body));
}

/// Decoding what was encoded gives the packet back, under every limit that
/// the encoding meets, and whatever bytes follow the encoding.
pub proof fn lemma_decode_encode(message: Message, trailing: Seq<u8>, size_limit: nat)
    requires
        message.fits(),
        encoding(message).len() + trailing.len() <= size_limit,
    ensures
        decoding(encoding(message) + trailing, size_limit) == Ok::<Message, DecodeError>(message),
{
    let bytes = encoding(message) + trailing;
    lemma_le_bound_positive(4);
    reveal_with_fuel(le_bound, 5);
    match message {
        Message::ClientHello { username } => {
            let name = encode_utf8(username);
            lemma_le_bytes_len(TAG_CLIENT_HELLO as nat, 4);
            lemma_le_value_of_bytes(TAG_CLIENT_HELLO as nat, 4);
            assert(bytes.take(4) =~= le_bytes(TAG_CLIENT_HELLO as nat, 4));
            assert(bytes.skip(4) =~= length_prefixed(name) + trailing);
            lemma_parse_length_prefixed(name, trailing);
            encode_utf8_valid_utf8(username);
            encode_utf8_decode_utf8(username);
        },
        Message::ServerHello { session_id, config } => {
            lemma_le_bytes_len(TAG_SERVER_HELLO as nat, 4);
            lemma_le_value_of_bytes(TAG_SERVER_HELLO as nat, 4);
            lemma_le_bytes_len(session_id as nat, 4);
            lemma_le_value_of_bytes(session_id as nat, 4);
            assert(bytes.take(4) =~= le_bytes(TAG_SERVER_HELLO as nat, 4));
            let fields = bytes.skip(4);
            assert(fields.take(4) =~= le_bytes(session_id as nat, 4));
            assert(fields.skip(4) =~= length_prefixed(config) + trailing);
            lemma_parse_length_prefixed(config, trailing);
        },
    }
}

/// A buffer longer than the limit is refused as too large, whatever it holds.
pub proof fn lemma_over_limit_is_too_large(bytes: Seq<u8>, size_limit: nat)
    requires
        bytes.len() > size_limit,
    ensures
        decoding(bytes, size_limit) == Err::<Message, DecodeError>(DecodeError::TooLarge),
{
}

/// An encoding that lost its end is refused: every proper prefix of the
/// bytes of a packet is malformed.
pub proof fn lemma_truncated_is_malformed(message: Message, n: nat, size_limit: nat)
    requires
        message.fits(),
        n < encoding(message).len(),
        n <= size_limit,
    ensures
        decoding(encoding(message).take(n as int), size_limit) == Err::<Message, DecodeError>(
            DecodeError::Malformed,
        ),
{
    let bytes = encoding(message).take(n as int);
    lemma_le_bound_positive(4);
    reveal_with_fuel(le_bound, 5);
    match message {
        Message::ClientHello { username } => {
            let name = encode_utf8(username);
            lemma_le_bytes_len(TAG_CLIENT_HELLO as nat, 4);
            lemma_le_bytes_len(name.len(), 8);
            if n >= 4 {
                lemma_le_value_of_bytes(TAG_CLIENT_HELLO as nat, 4);
                assert(bytes.take(4) =~= le_bytes(TAG_CLIENT_HELLO as nat, 4));
                assert(bytes.skip(4) =~= length_prefixed(name).take(n - 4));
                lemma_parse_length_prefixed_cut(name, (n - 4) as nat);
            }
        },
        Message::ServerHello { session_id, config } => {
            lemma_le_bytes_len(TAG_SERVER_HELLO as nat, 4);
            lemma_le_bytes_len(session_id as nat, 4);
            lemma_le_bytes_len(config.len(), 8);
            if n >= 4 {
                lemma_le_value_of_bytes(TAG_SERVER_HELLO as nat, 4);
                assert(bytes.take(4) =~= le_bytes(TAG_SERVER_HELLO as nat, 4));
                if n >= 8 {
                    assert(bytes.skip(4).skip(4) =~= length_prefixed(config).take(n - 8));
                    lemma_parse_length_prefixed_cut(config, (n - 8) as nat);
                }
            }
        },
    }
}

/// Whatever the buffer holds, decoding gives an error or a packet whose
/// encoding the buffer starts with: no packet comes out of bytes that do not
/// spell it.
pub proof fn lemma_decoded_is_prefix(bytes: Seq<u8>, size_limit: nat)
    requires
        decoding(bytes, size_limit) is Ok,
    ensures
        ({
            let message = decoding(bytes, size_limit)->Ok_0;
            &&& message.fits()
            &&& bytes.len() <= size_limit
            &&& encoding(message).len() <= bytes.len()
            &&& bytes.take(encoding(message).len() as int) == encoding(message)
        }),
{
    let message = parsing(bytes)->Some_0;
    let tag_bytes = bytes.take(4);
    let fields = bytes.skip(4);
    lemma_le_bytes_of_value(tag_bytes);
    match message {
        Message::ClientHello { username } => {
            let name = parse_length_prefixed(fields)->Some_0;
            lemma_parsed_length_prefixed(fields);
            decode_utf8_encode_utf8(name);
            let end = 8 + name.len() as int;
            assert(bytes.take(4 + end) =~= tag_bytes + fields.take(end));
            assert(encoding(message) =~= tag_bytes + length_prefixed(name));
        },
        Message::ServerHello { session_id, config } => {
            let id_bytes = fields.take(4);
            lemma_le_value_bound(id_bytes);
            reveal_with_fuel(le_bound, 5);
            lemma_le_bytes_of_value(id_bytes);
            lemma_parsed_length_prefixed(fields.skip(4));
            let end = 8 + config.len() as int;
            let blob = fields.skip(4).take(end);
            assert(bytes.take(4 + 4 + end) =~= tag_bytes + id_bytes + blob);
            assert(encoding(message) =~= tag_bytes + id_bytes + length_prefixed(config));
        },
    }
}

} // verus!
