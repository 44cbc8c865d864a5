use explora::config::GameConfig;
use explora::handshake::{client_hello, serve_handshake};
use explora::server::{
    Action, Event, Input, Server, CONNECTION_QUEUE_CAPACITY, EVENT_QUEUE_CAPACITY,
};
use explora::session::{ClientSession, ConnectionEvent, ConnectionHandle, ConnectionPhase};

fn handle(id: u64) -> ConnectionHandle {
    ConnectionHandle { id }
}

fn joined(name: &str) -> Event {
    Event::PlayerJoined(name.to_string())
}

#[test]
fn a_new_server_has_no_session() {
    let server = Server::new();
    assert_eq!(server.len(), 0);
    assert_eq!(server.last_id(), 0);
    assert!(server.get(0).is_none());
    assert!(server.get(1).is_none());
    assert_eq!(server.phase(1), ConnectionPhase::Connecting);
}

#[test]
fn queue_capacities() {
    assert_eq!(EVENT_QUEUE_CAPACITY, 128);
    assert_eq!(CONNECTION_QUEUE_CAPACITY, 8);
}

#[test]
fn ids_start_at_one_and_grow_by_one() {
    let mut server = Server::new();
    for expected in 1..=100u32 {
        assert_eq!(server.on_connect(handle(expected as u64 * 10)), Some(expected));
        assert_eq!(server.last_id(), expected);
    }
}

#[test]
fn many_handshakes_give_distinct_growing_ids() {
    let mut server = Server::new();
    let mut ids = Vec::new();
    for n in 0..50u64 {
        ids.push(server.on_connect(handle(n)).unwrap());
    }
    // The handshakes finish in another order than they began.
    for (turn, id) in ids.iter().rev().enumerate() {
        let name = format!("player{}", id);
        assert_eq!(server.on_event(*id, Event::PlayerJoined(name)), Some(handle(*id as u64 - 1)));
        assert_eq!(server.len(), turn + 1);
    }
    for pair in ids.windows(2) {
        assert!(pair[0] < pair[1]);
    }
    for id in &ids {
        let session = server.get(*id).unwrap();
        assert_eq!(session.session_id(), *id);
        assert_eq!(session.username(), &format!("player{}", id));
    }
}

#[test]
fn a_session_is_in_the_table_only_after_its_handshake() {
    let mut server = Server::new();
    let id = server.on_connect(handle(5)).unwrap();
    assert!(server.get(id).is_none());
    assert_eq!(server.len(), 0);
    assert_eq!(server.phase(id), ConnectionPhase::Handshaking);
    assert_eq!(server.on_event(id, joined("Alice")), Some(handle(5)));
    assert_eq!(server.phase(id), ConnectionPhase::Active);
    assert_eq!(server.get(id), Some(&ClientSession::new(id, handle(5), "Alice".to_string())));
    assert_eq!(server.len(), 1);
}

#[test]
fn an_event_for_an_unknown_id_changes_nothing() {
    let mut server = Server::new();
    assert_eq!(server.on_event(1, joined("Ghost")), None);
    assert_eq!(server.on_event(0, joined("Ghost")), None);
    assert_eq!(server.len(), 0);
    assert_eq!(server.last_id(), 0);
    let id = server.on_connect(handle(1)).unwrap();
    assert_eq!(server.on_event(id + 1, joined("Ghost")), None);
    assert!(server.get(id + 1).is_none());
    assert_eq!(server.phase(id), ConnectionPhase::Handshaking);
}

#[test]
fn a_second_event_for_an_active_session_changes_nothing() {
    let mut server = Server::new();
    let id = server.on_connect(handle(1)).unwrap();
    assert_eq!(server.on_event(id, joined("Alice")), Some(handle(1)));
    assert_eq!(server.on_event(id, joined("Mallory")), None);
    assert_eq!(server.get(id).unwrap().username(), "Alice");
    assert_eq!(server.len(), 1);
}

#[test]
fn a_failed_handshake_does_not_stop_the_next_one() {
    let mut server = Server::new();

    // The first client sends a malformed Hello.
    let first = server.on_connect(handle(1)).unwrap();
    assert!(serve_handshake(&[0xde, 0xad], first, GameConfig::default()).is_err());
    assert!(server.on_disconnect(first));
    assert_eq!(server.phase(first), ConnectionPhase::Closed);
    assert_eq!(server.len(), 0);

    // The second one is well-formed.
    let second = server.on_connect(handle(2)).unwrap();
    assert!(second > first);
    let hello = client_hello("Bob".to_string());
    let (event, _reply) = serve_handshake(&hello, second, GameConfig::default()).unwrap();
    assert_eq!(server.on_event(second, event), Some(handle(2)));
    assert_eq!(server.len(), 1);
    assert_eq!(server.get(second).unwrap().username(), "Bob");
    assert!(server.get(first).is_none());
}

fn alice_and_bob(alice_first: bool) -> Server {
    let mut server = Server::new();
    let alice = server.on_connect(handle(1)).unwrap();
    let bob = server.on_connect(handle(2)).unwrap();
    if alice_first {
        server.on_event(alice, joined("Alice"));
        server.on_event(bob, joined("Bob"));
    } else {
        server.on_event(bob, joined("Bob"));
        server.on_event(alice, joined("Alice"));
    }
    server
}

#[test]
fn alice_and_bob_are_two_sessions_in_either_order() {
    for alice_first in [true, false] {
        let server = alice_and_bob(alice_first);
        assert_eq!(server.len(), 2);
        let alice = server.get(1).unwrap();
        let bob = server.get(2).unwrap();
        assert_ne!(alice.session_id(), bob.session_id());
        assert_eq!(alice.username(), "Alice");
        assert_eq!(bob.username(), "Bob");
        assert_eq!(alice.connection(), handle(1));
        assert_eq!(bob.connection(), handle(2));
        assert!(server.get(3).is_none());
    }
}

#[test]
fn an_id_is_not_used_again_after_a_disconnect() {
    let mut server = Server::new();
    let first = server.on_connect(handle(1)).unwrap();
    server.on_event(first, joined("Alice"));
    assert!(server.on_disconnect(first));
    assert!(server.get(first).is_none());
    assert_eq!(server.len(), 0);
    assert_eq!(server.phase(first), ConnectionPhase::Closed);
    let second = server.on_connect(handle(1)).unwrap();
    assert_eq!(second, first + 1);
    assert!(!server.on_disconnect(first));
    assert!(!server.on_disconnect(second + 1));
}

#[test]
fn a_late_join_after_a_disconnect_is_ignored() {
    let mut server = Server::new();
    let id = server.on_connect(handle(1)).unwrap();
    assert!(server.on_disconnect(id));
    assert_eq!(server.on_event(id, joined("Late")), None);
    assert!(server.get(id).is_none());
    assert_eq!(server.phase(id), ConnectionPhase::Closed);
}

#[test]
fn one_turn_of_the_loop_for_each_input() {
    let mut server = Server::new();
    assert_eq!(
        server.handle(Input::Connected(handle(9))),
        Action::Handshake { connection: handle(9), session_id: 1 }
    );
    assert_eq!(server.handle(Input::Published(2, joined("Nobody"))), Action::Nothing);
    assert_eq!(
        server.handle(Input::Published(1, joined("Alice"))),
        Action::Welcome { connection: handle(9), session_id: 1 }
    );
    assert_eq!(server.len(), 1);
    assert_eq!(server.handle(Input::Disconnected(1)), Action::Nothing);
    assert_eq!(server.len(), 0);
    assert_eq!(server.handle(Input::Disconnected(1)), Action::Nothing);
}

#[test]
fn phases_follow_the_events() {
    let start = ConnectionPhase::Connecting;
    let handshaking = start.advance(ConnectionEvent::Accepted);
    assert_eq!(handshaking, ConnectionPhase::Handshaking);
    assert_eq!(handshaking.advance(ConnectionEvent::HelloExchanged), ConnectionPhase::Active);
    assert_eq!(handshaking.advance(ConnectionEvent::Failed), ConnectionPhase::Closed);
    assert_eq!(
        ConnectionPhase::Active.advance(ConnectionEvent::Terminated),
        ConnectionPhase::Closed
    );
    assert_eq!(start.advance(ConnectionEvent::Failed), ConnectionPhase::Closed);
    assert_eq!(start.advance(ConnectionEvent::HelloExchanged), ConnectionPhase::Closed);
}

#[test]
fn nothing_leads_out_of_closed() {
    for event in [
        ConnectionEvent::Accepted,
        ConnectionEvent::HelloExchanged,
        ConnectionEvent::Failed,
        ConnectionEvent::Terminated,
    ] {
        assert_eq!(ConnectionPhase::Closed.advance(event), ConnectionPhase::Closed);
    }
}

#[test]
fn a_failure_never_leads_to_active() {
    for phase in [
        ConnectionPhase::Connecting,
        ConnectionPhase::Handshaking,
        ConnectionPhase::Active,
        ConnectionPhase::Closed,
    ] {
        assert_eq!(phase.advance(ConnectionEvent::Failed), ConnectionPhase::Closed);
        assert_eq!(phase.advance(ConnectionEvent::Terminated), ConnectionPhase::Closed);
        assert_ne!(phase.advance(ConnectionEvent::Accepted), ConnectionPhase::Active);
    }
}
