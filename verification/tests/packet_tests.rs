use explora::config::GameConfig;
use explora::packet::{decode, encode, ClientPacket, DecodeError, Packet, ServerPacket};

fn client_hello(name: &str) -> Packet {
    Packet::Client(ClientPacket::Hello { username: name.to_string() })
}

fn server_hello(session_id: u32, config: Vec<u8>) -> Packet {
    Packet::Server(ServerPacket::Hello { session_id, config: GameConfig::new(config) })
}

#[test]
fn client_hello_bytes() {
    let bytes = encode(&client_hello("Alice"));
    assert_eq!(
        bytes,
        vec![0, 0, 0, 0, 5, 0, 0, 0, 0, 0, 0, 0, b'A', b'l', b'i', b'c', b'e']
    );
}

#[test]
fn server_hello_bytes() {
    let bytes = encode(&server_hello(0x0102_0304, vec![9, 8]));
    assert_eq!(bytes, vec![1, 0, 0, 0, 4, 3, 2, 1, 2, 0, 0, 0, 0, 0, 0, 0, 9, 8]);
}

#[test]
fn client_hello_is_what_bincode_writes() {
    let expected = bincode::serialize(&(0u32, "Alice".to_string())).unwrap();
    assert_eq!(encode(&client_hello("Alice")), expected);
    let expected = bincode::serialize(&(0u32, "Zoë ✓".to_string())).unwrap();
    assert_eq!(encode(&client_hello("Zoë ✓")), expected);
}

#[test]
fn server_hello_is_what_bincode_writes() {
    let expected = bincode::serialize(&(1u32, 7u32, vec![1u8, 2, 3])).unwrap();
    assert_eq!(encode(&server_hello(7, vec![1, 2, 3])), expected);
}

#[test]
fn packets_read_back_what_bincode_wrote() {
    let bytes = bincode::serialize(&(0u32, "Bob".to_string())).unwrap();
    assert_eq!(decode(&bytes, 1024), Ok(client_hello("Bob")));
    let bytes = bincode::serialize(&(1u32, u32::MAX, Vec::<u8>::new())).unwrap();
    assert_eq!(decode(&bytes, 1024), Ok(server_hello(u32::MAX, vec![])));
}

#[test]
fn round_trip_of_every_variant() {
    let packets = vec![
        client_hello(""),
        client_hello("Alice"),
        client_hello("Ünïcödé ✓ 名前"),
        server_hello(0, vec![]),
        server_hello(1, vec![0xff; 300]),
        server_hello(u32::MAX, vec![0, 1, 2]),
    ];
    for packet in packets {
        let bytes = encode(&packet);
        assert_eq!(decode(&bytes, bytes.len()), Ok(packet.clone()));
        assert_eq!(decode(&bytes, bytes.len() + 1), Ok(packet.clone()));
        assert_eq!(decode(&bytes, usize::MAX), Ok(packet));
    }
}

#[test]
fn encoding_is_deterministic() {
    assert_eq!(encode(&client_hello("Alice")), encode(&client_hello("Alice")));
    assert_ne!(encode(&client_hello("Alice")), encode(&client_hello("Bob")));
}

#[test]
fn a_buffer_over_the_limit_is_too_large() {
    let bytes = encode(&client_hello("Alice"));
    assert_eq!(decode(&bytes, bytes.len() - 1), Err(DecodeError::TooLarge));
    assert_eq!(decode(&bytes, 0), Err(DecodeError::TooLarge));
    assert_eq!(decode(&[0xff; 100], 99), Err(DecodeError::TooLarge));
    assert_eq!(decode(&[7], 0), Err(DecodeError::TooLarge));
}

#[test]
fn an_empty_buffer_is_malformed() {
    assert_eq!(decode(&[], 0), Err(DecodeError::Malformed));
    assert_eq!(decode(&[], 1024), Err(DecodeError::Malformed));
}

#[test]
fn an_unknown_tag_is_malformed() {
    let mut bytes = encode(&client_hello("Alice"));
    bytes[0] = 2;
    assert_eq!(decode(&bytes, 1024), Err(DecodeError::Malformed));
    let mut bytes = encode(&client_hello("Alice"));
    bytes[3] = 1;
    assert_eq!(decode(&bytes, 1024), Err(DecodeError::Malformed));
}

#[test]
fn a_name_that_is_not_text_is_malformed() {
    let mut bytes = encode(&client_hello("Alice"));
    bytes[12] = 0xff;
    assert_eq!(decode(&bytes, 1024), Err(DecodeError::Malformed));
    let mut bytes = encode(&client_hello("é"));
    bytes.pop();
    bytes[4] = 1;
    assert_eq!(decode(&bytes, 1024), Err(DecodeError::Malformed));
}

#[test]
fn a_length_beyond_the_buffer_is_malformed() {
    let mut bytes = encode(&client_hello("Alice"));
    bytes[4] = 6;
    assert_eq!(decode(&bytes, 1024), Err(DecodeError::Malformed));
    let mut bytes = encode(&client_hello("Alice"));
    bytes[11] = 0x80;
    assert_eq!(decode(&bytes, 1024), Err(DecodeError::Malformed));
    let mut bytes = encode(&server_hello(1, vec![1, 2, 3]));
    bytes[8] = 4;
    assert_eq!(decode(&bytes, 1024), Err(DecodeError::Malformed));
}

#[test]
fn every_truncation_is_malformed() {
    for packet in [client_hello("Alice"), server_hello(1, vec![1, 2, 3, 4])] {
        let bytes = encode(&packet);
        for len in 0..bytes.len() {
            assert_eq!(decode(&bytes[..len], 1024), Err(DecodeError::Malformed));
        }
    }
}

#[test]
fn bytes_after_the_last_field_are_ignored() {
    let mut bytes = encode(&client_hello("Alice"));
    bytes.extend_from_slice(&[1, 2, 3]);
    assert_eq!(decode(&bytes, 1024), Ok(client_hello("Alice")));
    let mut bytes = encode(&server_hello(5, vec![]));
    bytes.push(0);
    assert_eq!(decode(&bytes, 1024), Ok(server_hello(5, vec![])));
}

#[test]
fn a_shorter_length_gives_a_shorter_name() {
    let mut bytes = encode(&client_hello("Alice"));
    bytes[4] = 2;
    assert_eq!(decode(&bytes, 1024), Ok(client_hello("Al")));
}

fn next_random(state: &mut u64) -> u64 {
    *state ^= *state << 13;
    *state ^= *state >> 7;
    *state ^= *state << 17;
    *state
}

#[test]
fn random_bytes_give_an_error_and_no_panic() {
    let mut state = 0x2545_f491_4f6c_dd1du64;
    for _ in 0..10_000 {
        let len = (next_random(&mut state) % 64) as usize;
        let mut bytes = Vec::with_capacity(len);
        for _ in 0..len {
            bytes.push((next_random(&mut state) >> 24) as u8);
        }
        if bytes.len() >= 4 && bytes[1] == 0 && bytes[2] == 0 && bytes[3] == 0 && bytes[0] < 2 {
            bytes[0] = 2;
        }
        let limit = (next_random(&mut state) % 80) as usize;
        let result = decode(&bytes, limit);
        if bytes.len() > limit {
            assert_eq!(result, Err(DecodeError::TooLarge));
        } else {
            assert_eq!(result, Err(DecodeError::Malformed));
        }
    }
}

#[test]
fn random_bytes_after_a_known_tag_give_an_error_or_their_own_packet() {
    let mut state = 0x9e37_79b9_7f4a_7c15u64;
    let mut accepted = 0;
    for round in 0..10_000 {
        let len = 4 + (next_random(&mut state) % 40) as usize;
        let mut bytes = vec![(round % 2) as u8, 0, 0, 0];
        while bytes.len() < len {
            let byte = (next_random(&mut state) >> 24) as u8;
            bytes.push(if bytes.len() % 3 == 0 { byte } else { byte % 4 });
        }
        match decode(&bytes, 64) {
            Ok(packet) => {
                let again = encode(&packet);
                assert!(again.len() <= bytes.len());
                assert_eq!(again[..], bytes[..again.len()]);
                accepted += 1;
            }
            Err(error) => assert_eq!(error, DecodeError::Malformed),
        }
    }
    assert!(accepted < 10_000);
}
