use explora::config::GameConfig;
use explora::handshake::{
    client_hello, read_client_hello, read_server_hello, serve_handshake, server_hello,
    HandshakeError, ProtocolError, CLIENT_HELLO_LIMIT, SERVER_HELLO_LIMIT,
};
use explora::packet::DecodeError;
use explora::server::{Action, Event, Input, Server};
use explora::session::ConnectionHandle;

#[test]
fn the_limits_are_64_kib_and_1_kib() {
    assert_eq!(CLIENT_HELLO_LIMIT, 1 << 16);
    assert_eq!(SERVER_HELLO_LIMIT, 1024);
}

#[test]
fn alice_and_the_server_agree_on_session_1() {
    // The client sends its Hello on stream A.
    let stream_a = client_hello("Alice".to_string());

    // The server takes the connection in, reads the stream, publishes the
    // event and answers on stream B.
    let mut server = Server::new();
    let connection = ConnectionHandle { id: 42 };
    let session_id = match server.handle(Input::Connected(connection)) {
        Action::Handshake { connection: c, session_id } => {
            assert_eq!(c, connection);
            session_id
        }
        other => panic!("unexpected action {:?}", other),
    };
    assert_eq!(session_id, 1);
    let (event, stream_b) = serve_handshake(&stream_a, session_id, GameConfig::default()).unwrap();
    assert_eq!(event, Event::PlayerJoined("Alice".to_string()));
    assert_eq!(
        server.handle(Input::Published(session_id, event)),
        Action::Welcome { connection, session_id: 1 }
    );

    // The client reads stream B.
    let (id, config) = read_server_hello(&stream_b).unwrap();
    assert_eq!(id, 1);
    assert_eq!(config, GameConfig::default());

    // Both sides hold the same session.
    let session = server.get(id).unwrap();
    assert_eq!(session.session_id(), 1);
    assert_eq!(session.username(), "Alice");
    assert_eq!(session.connection(), connection);
}

#[test]
fn the_server_reads_the_name() {
    assert_eq!(read_client_hello(&client_hello("Bob".to_string())), Ok("Bob".to_string()));
    assert_eq!(read_client_hello(&client_hello(String::new())), Ok(String::new()));
}

#[test]
fn the_client_reads_id_and_configuration() {
    let config = GameConfig::new(vec![1, 2, 3]);
    let bytes = server_hello(77, config.clone());
    assert_eq!(read_server_hello(&bytes), Ok((77, config)));
}

#[test]
fn a_server_hello_at_a_server_is_an_unexpected_variant() {
    let bytes = server_hello(1, GameConfig::default());
    assert_eq!(
        read_client_hello(&bytes),
        Err(HandshakeError::Protocol(ProtocolError::UnexpectedVariant))
    );
    assert_eq!(
        serve_handshake(&bytes, 2, GameConfig::default()),
        Err(HandshakeError::Protocol(ProtocolError::UnexpectedVariant))
    );
}

#[test]
fn a_client_hello_at_a_client_is_an_unexpected_variant() {
    let bytes = client_hello("Alice".to_string());
    assert_eq!(
        read_server_hello(&bytes),
        Err(HandshakeError::Protocol(ProtocolError::UnexpectedVariant))
    );
}

#[test]
fn a_malformed_hello_fails_the_handshake() {
    assert_eq!(read_client_hello(&[]), Err(HandshakeError::Decode(DecodeError::Malformed)));
    assert_eq!(
        read_client_hello(&[9, 9, 9, 9, 9]),
        Err(HandshakeError::Decode(DecodeError::Malformed))
    );
    assert_eq!(
        read_server_hello(&[1, 0, 0, 0, 1]),
        Err(HandshakeError::Decode(DecodeError::Malformed))
    );
    assert_eq!(
        serve_handshake(&[0, 0, 0, 0], 1, GameConfig::default()),
        Err(HandshakeError::Decode(DecodeError::Malformed))
    );
}

#[test]
fn the_server_takes_a_name_up_to_its_limit() {
    let longest = "x".repeat(CLIENT_HELLO_LIMIT - 12);
    let bytes = client_hello(longest.clone());
    assert_eq!(bytes.len(), CLIENT_HELLO_LIMIT);
    assert_eq!(read_client_hello(&bytes), Ok(longest));

    let too_long = "x".repeat(CLIENT_HELLO_LIMIT - 11);
    let bytes = client_hello(too_long);
    assert_eq!(read_client_hello(&bytes), Err(HandshakeError::Decode(DecodeError::TooLarge)));
}

#[test]
fn the_client_takes_a_configuration_up_to_its_limit() {
    let largest = GameConfig::new(vec![7; SERVER_HELLO_LIMIT - 16]);
    let bytes = server_hello(3, largest.clone());
    assert_eq!(bytes.len(), SERVER_HELLO_LIMIT);
    assert_eq!(read_server_hello(&bytes), Ok((3, largest)));

    let too_large = GameConfig::new(vec![7; SERVER_HELLO_LIMIT - 15]);
    let bytes = server_hello(3, too_large);
    assert_eq!(read_server_hello(&bytes), Err(HandshakeError::Decode(DecodeError::TooLarge)));
}

#[test]
fn the_answer_carries_the_id_it_was_given() {
    let hello = client_hello("Carol".to_string());
    for id in [1u32, 2, 1000, u32::MAX] {
        let (event, reply) = serve_handshake(&hello, id, GameConfig::new(vec![5])).unwrap();
        assert_eq!(event, Event::PlayerJoined("Carol".to_string()));
        assert_eq!(read_server_hello(&reply), Ok((id, GameConfig::new(vec![5]))));
    }
}
