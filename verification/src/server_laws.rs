//! What holds of the server actor in every state and along every run.

use crate::server::{ServerModel, ServerOp};
use crate::session::{ConnectionEvent, ConnectionHandle, ConnectionPhase, SessionModel};
use vstd::prelude::*;

verus! {

/// Every input keeps the state valid and never lowers the last id.
pub proof fn lemma_step_keeps_valid(state: ServerModel, op: ServerOp)
    requires
        state.valid(),
    ensures
        state.step(op).valid(),
        state.step(op).last_id >= state.last_id,
{
}

/// Every run keeps the state valid and never lowers the last id.
pub proof fn lemma_run_keeps_valid(state: ServerModel, ops: Seq<ServerOp>)
    requires
        state.valid(),
    ensures
        state.run(ops).valid(),
        state.run(ops).last_id >= state.last_id,
    decreases ops.len(),
{
    if ops.len() > 0 {
        lemma_run_keeps_valid(state, ops.drop_last());
        lemma_step_keeps_valid(state.run(ops.drop_last()), ops.last());
    }
}

/// The id that a new connection gets is in use nowhere, and is greater
/// than every id in use.
pub proof fn lemma_new_id_is_fresh(state: ServerModel)
    requires
        state.valid(),
        state.has_room(),
    ensures
        !state.sessions.contains_key(state.next_id()),
        !state.pending.contains_key(state.next_id()),
        forall|id: u32|
            state.sessions.contains_key(id) || state.pending.contains_key(id) ==> id
                < state.next_id(),
{
}

/// No two sessions of the table share an id.
pub proof fn lemma_session_ids_distinct(state: ServerModel, a: u32, b: u32)
    requires
        state.valid(),
        state.sessions.contains_key(a),
        state.sessions.contains_key(b),
        a != b,
    ensures
        state.sessions[a].session_id != state.sessions[b].session_id,
{
}

/// Of two connections accepted one after the other, whatever happened
/// between them, the later one gets the greater id.
pub proof fn lemma_later_id_is_greater(
    state: ServerModel,
    first: ConnectionHandle,
    between: Seq<ServerOp>,
    second: ConnectionHandle,
)
    requires
        state.valid(),
        state.has_room(),
        state.connect(first).run(between).has_room(),
    ensures
        state.connect(first).run(between).next_id() > state.next_id(),
        state.connect(first).run(between).connect(second).pending.contains_key(
            state.connect(first).run(between).next_id(),
        ),
{
    lemma_step_keeps_valid(state, ServerOp::Connect(first));
    lemma_run_keeps_valid(state.connect(first), between);
}

impl ServerModel {
    /// The state after the connections were accepted, in order.
    pub open spec fn connect_all(self, connections: Seq<ConnectionHandle>) -> ServerModel
        decreases connections.len(),
    {
        if connections.len() == 0 {
            self
        } else {
            self.connect_all(connections.drop_last()).connect(connections.last())
        }
    }

    /// The state after the handshakes ended, each with its id and the name
    /// it gave, in order.
    pub open spec fn join_all(self, joins: Seq<(u32, Seq<char>)>) -> ServerModel
        decreases joins.len(),
    {
        if joins.len() == 0 {
            self
        } else {
            self.join_all(joins.drop_last()).joined(joins.last().0, joins.last().1)
        }
    }
}

/// Any number of connections, accepted one after the other, get as many
/// ids, each one more than the one before, and each waits under its own.
pub proof fn lemma_n_connections_n_ids(state: ServerModel, connections: Seq<ConnectionHandle>)
    requires
        state.valid(),
        state.last_id + connections.len() <= u32::MAX,
    ensures
        ({
            let end = state.connect_all(connections);
            &&& end.valid()
            &&& end.last_id == state.last_id + connections.len()
            &&& end.sessions == state.sessions
            &&& forall|i: int|
                0 <= i < connections.len() ==> end.pending.contains_key(
                    #[trigger] ((state.last_id + 1 + i) as u32),
                ) && end.pending[(state.last_id + 1 + i) as u32] == connections[i]
            &&& forall|id: u32|
                id <= state.last_id ==> (#[trigger] end.pending.contains_key(id)
                    <==> state.pending.contains_key(id))
        }),
    decreases connections.len(),
{
    if connections.len() > 0 {
        let before = connections.drop_last();
        lemma_n_connections_n_ids(state, before);
        let middle = state.connect_all(before);
        let end = state.connect_all(connections);
        assert(end == middle.connect(connections.last()));
        assert forall|i: int| 0 <= i < connections.len() implies end.pending.contains_key(
            #[trigger] ((state.last_id + 1 + i) as u32),
        ) && end.pending[(state.last_id + 1 + i) as u32] == connections[i] by {
            if i < before.len() {
                assert(middle.pending.contains_key((state.last_id + 1 + i) as u32));
                assert(before[i] == connections[i]);
            }
        }
    }
}

/// Any number of waiting connections whose handshakes end, in whatever
/// order, make as many more sessions: each under its own id, with the name
/// it gave, on its own connection. The sessions that were there stay.
pub proof fn lemma_n_handshakes_n_sessions(state: ServerModel, joins: Seq<(u32, Seq<char>)>)
    requires
        state.valid(),
        forall|i: int| 0 <= i < joins.len() ==> state.pending.contains_key((#[trigger] joins[i]).0),
        forall|i: int, j: int|
            0 <= i < j < joins.len() ==> (#[trigger] joins[i]).0 != (#[trigger] joins[j]).0,
    ensures
        ({
            let end = state.join_all(joins);
            &&& end.valid()
            &&& end.last_id == state.last_id
            &&& end.sessions.len() == state.sessions.len() + joins.len()
            &&& forall|i: int|
                0 <= i < joins.len() ==> end.sessions.contains_key((#[trigger] joins[i]).0)
                    && end.sessions[joins[i].0] == (SessionModel {
                    session_id: joins[i].0,
                    connection: state.pending[joins[i].0],
                    username: joins[i].1,
                })
            &&& forall|id: u32|
                state.sessions.contains_key(id) ==> #[trigger] end.sessions.contains_key(id)
                    && end.sessions[id] == state.sessions[id]
            &&& forall|id: u32| #[trigger]
                end.sessions.contains_key(id) ==> state.sessions.contains_key(id) || exists|i: int|
                    0 <= i < joins.len() && (#[trigger] joins[i]).0 == id
            &&& forall|id: u32| #[trigger]
                end.pending.contains_key(id) <==> state.pending.contains_key(id) && !exists|i: int|
                    0 <= i < joins.len() && (#[trigger] joins[i]).0 == id
            &&& forall|id: u32|
                end.pending.contains_key(id) ==> #[trigger] end.pending[id] == state.pending[id]
        }),
    decreases joins.len(),
{
    if joins.len() > 0 {
        let before = joins.drop_last();
        let last = joins.last();
        assert forall|i: int| 0 <= i < before.len() implies state.pending.contains_key(
            (#[trigger] before[i]).0,
        ) by {
            assert(before[i] == joins[i]);
        }
        assert forall|i: int, j: int| 0 <= i < j < before.len() implies (#[trigger] before[i]).0
            != (#[trigger] before[j]).0 by {
            assert(before[i] == joins[i] && before[j] == joins[j]);
        }
        lemma_n_handshakes_n_sessions(state, before);
        let middle = state.join_all(before);
        let end = state.join_all(joins);
        assert(end == middle.joined(last.0, last.1));
        assert(state.pending.contains_key(last.0));
        assert(middle.pending.contains_key(last.0)) by {
            if exists|i: int| 0 <= i < before.len() && (#[trigger] before[i]).0 == last.0 {
                let i = choose|i: int| 0 <= i < before.len() && (#[trigger] before[i]).0 == last.0;
                assert(joins[i] == before[i]);
                assert(joins[i].0 != joins[joins.len() - 1].0);
            }
        }
        assert(!middle.sessions.contains_key(last.0));
        assert(end.sessions.dom() =~= middle.sessions.dom().insert(last.0));
        assert forall|i: int| 0 <= i < joins.len() implies end.sessions.contains_key(
            (#[trigger] joins[i]).0,
        ) && end.sessions[joins[i].0] == (SessionModel {
            session_id: joins[i].0,
            connection: state.pending[joins[i].0],
            username: joins[i].1,
        }) by {
            if i < before.len() {
                assert(before[i] == joins[i]);
                assert(joins[i].0 != joins[joins.len() - 1].0);
            }
        }
        assert forall|id: u32| #[trigger] end.sessions.contains_key(id) implies state.sessions
            .contains_key(id) || exists|i: int|
            0 <= i < joins.len() && (#[trigger] joins[i]).0 == id by {
            if id == last.0 {
                assert(joins[joins.len() - 1].0 == id);
            } else if !state.sessions.contains_key(id) {
                assert(middle.sessions.contains_key(id));
                let i = choose|i: int| 0 <= i < before.len() && (#[trigger] before[i]).0 == id;
                assert(joins[i] == before[i]);
            }
        }
        assert forall|id: u32| #[trigger]
            end.pending.contains_key(id) <==> state.pending.contains_key(id) && !exists|i: int|
                0 <= i < joins.len() && (#[trigger] joins[i]).0 == id by {
            if exists|i: int| 0 <= i < joins.len() && (#[trigger] joins[i]).0 == id {
                let i = choose|i: int| 0 <= i < joins.len() && (#[trigger] joins[i]).0 == id;
                if i < before.len() {
                    assert(before[i] == joins[i]);
                }
            } else if state.pending.contains_key(id) {
                assert(joins[joins.len() - 1].0 != id);
                if exists|i: int| 0 <= i < before.len() && (#[trigger] before[i]).0 == id {
                    let i = choose|i: int| 0 <= i < before.len() && (#[trigger] before[i]).0 == id;
                    assert(joins[i] == before[i]);
                }
            }
        }
    }
}

/// A session is in the table only through the `PlayerJoined` of its own
/// waiting connection: no other input puts one in.
pub proof fn lemma_session_needs_join(state: ServerModel, op: ServerOp, id: u32)
    requires
        state.valid(),
        state.step(op).sessions.contains_key(id),
    ensures
        state.sessions.contains_key(id) || (op matches ServerOp::Joined(joined, _) && joined == id
            && state.pending.contains_key(id)),
{
}

/// A connection whose handshake fails leaves no trace but its used id: the
/// next connection is accepted, joins and is filed, and every session that
/// was in the table stays as it was.
pub proof fn lemma_failure_is_isolated(
    state: ServerModel,
    failing: ConnectionHandle,
    next: ConnectionHandle,
    username: Seq<char>,
)
    requires
        state.valid(),
        state.last_id + 2 <= u32::MAX,
    ensures
        ({
            let failed_id = state.next_id();
            let after_failure = state.connect(failing).closed(failed_id);
            let id = after_failure.next_id();
            let end = after_failure.connect(next).joined(id, username);
            &&& id == failed_id + 1
            &&& after_failure.sessions == state.sessions
            &&& after_failure.pending == state.pending
            &&& end.sessions == state.sessions.insert(
                id,
                SessionModel { session_id: id, connection: next, username },
            )
            &&& end.pending == state.pending
            &&& end.phase(failed_id) == ConnectionPhase::Closed
            &&& end.phase(id) == ConnectionPhase::Active
        }),
{
    let failed_id = state.next_id();
    let after_failure = state.connect(failing).closed(failed_id);
    let id = after_failure.next_id();
    let end = after_failure.connect(next).joined(id, username);
    assert(after_failure.sessions =~= state.sessions);
    assert(after_failure.pending =~= state.pending);
    assert(end.pending =~= state.pending);
}

/// Closing one connection and joining another can happen in either order.
pub proof fn lemma_close_and_join_commute(
    state: ServerModel,
    closing: u32,
    joining: u32,
    username: Seq<char>,
)
    requires
        closing != joining,
    ensures
        state.closed(closing).joined(joining, username) == state.joined(joining, username).closed(
            closing,
        ),
{
    let left = state.closed(closing).joined(joining, username);
    let right = state.joined(joining, username).closed(closing);
    assert(left.sessions =~= right.sessions);
    assert(left.pending =~= right.pending);
}

/// A handshake that ends after its connection was closed, as after a
/// deadline, is ignored: no session comes of it.
pub proof fn lemma_late_join_is_ignored(state: ServerModel, id: u32, username: Seq<char>)
    ensures
        state.closed(id).joined(id, username) == state.closed(id),
        !state.closed(id).sessions.contains_key(id),
{
}

/// Two handshakes may finish in either order: the table is the same.
pub proof fn lemma_joins_commute(
    state: ServerModel,
    a: u32,
    name_a: Seq<char>,
    b: u32,
    name_b: Seq<char>,
)
    requires
        a != b,
    ensures
        state.joined(a, name_a).joined(b, name_b) == state.joined(b, name_b).joined(a, name_a),
{
    let left = state.joined(a, name_a).joined(b, name_b);
    let right = state.joined(b, name_b).joined(a, name_a);
    assert(left.sessions =~= right.sessions);
    assert(left.pending =~= right.pending);
}

/// Two connections that were accepted and whose handshakes both finish, in
/// either order, end as exactly two more sessions, under two different ids.
pub proof fn lemma_two_clients_two_sessions(
    state: ServerModel,
    first: ConnectionHandle,
    name_first: Seq<char>,
    second: ConnectionHandle,
    name_second: Seq<char>,
)
    requires
        state.valid(),
        state.last_id + 2 <= u32::MAX,
    ensures
        ({
            let a = state.next_id();
            let b = state.connect(first).next_id();
            let accepted = state.connect(first).connect(second);
            let end = accepted.joined(a, name_first).joined(b, name_second);
            &&& a != b
            &&& end == accepted.joined(b, name_second).joined(a, name_first)
            &&& end.sessions == state.sessions.insert(
                a,
                SessionModel { session_id: a, connection: first, username: name_first },
            ).insert(b, SessionModel { session_id: b, connection: second, username: name_second })
            &&& end.sessions.len() == state.sessions.len() + 2
            &&& end.pending == state.pending
        }),
{
    let a = state.next_id();
    let b = state.connect(first).next_id();
    let accepted = state.connect(first).connect(second);
    let end = accepted.joined(a, name_first).joined(b, name_second);
    lemma_joins_commute(accepted, a, name_first, b, name_second);
    assert(end.pending =~= state.pending);
    let one = state.sessions.insert(
        a,
        SessionModel { session_id: a, connection: first, username: name_first },
    );
    assert(end.sessions =~= one.insert(
        b,
        SessionModel { session_id: b, connection: second, username: name_second },
    ));
    assert(one.dom() =~= state.sessions.dom().insert(a));
    assert(end.sessions.dom() =~= one.dom().insert(b));
}

/// The actor moves each connection through its phases: accepting a
/// connection, the end of its handshake and its closing are the events
/// `Accepted`, `HelloExchanged`, and `Failed` or `Terminated` of that
/// connection, and touch the phase of no other.
pub proof fn lemma_phase_follows_events(
    state: ServerModel,
    connection: ConnectionHandle,
    username: Seq<char>,
    id: u32,
    other: u32,
)
    requires
        state.valid(),
        other != id,
    ensures
        state.has_room() ==> state.phase(state.next_id()) == ConnectionPhase::Connecting,
        state.has_room() ==> state.connect(connection).phase(state.next_id()) == state.phase(
            state.next_id(),
        ).next(ConnectionEvent::Accepted),
        id != state.next_id() ==> state.connect(connection).phase(id) == state.phase(id),
        state.pending.contains_key(id) ==> state.joined(id, username).phase(id) == state.phase(
            id,
        ).next(ConnectionEvent::HelloExchanged),
        state.joined(id, username).phase(other) == state.phase(other),
        1 <= id <= state.last_id ==> state.closed(id).phase(id) == state.phase(id).next(
            ConnectionEvent::Failed,
        ),
        1 <= id <= state.last_id ==> state.closed(id).phase(id) == state.phase(id).next(
            ConnectionEvent::Terminated,
        ),
        state.closed(id).phase(other) == state.phase(other),
{
}

/// Nothing leads out of `Closed`.
pub proof fn lemma_closed_is_final(events: Seq<ConnectionEvent>)
    ensures
        ConnectionPhase::Closed.after(events) == ConnectionPhase::Closed,
    decreases events.len(),
{
    if events.len() > 0 {
        lemma_closed_is_final(events.drop_last());
    }
}

/// A connection is active only after exactly two events: it was accepted,
/// and then both `Hello` packets were exchanged.
pub proof fn lemma_active_needs_handshake(events: Seq<ConnectionEvent>)
    requires
        ConnectionPhase::Connecting.after(events) == ConnectionPhase::Active,
    ensures
        events == seq![ConnectionEvent::Accepted, ConnectionEvent::HelloExchanged],
{
    let n = events.len();
    assert(n > 0);
    let before = events.drop_last();
    assert(ConnectionPhase::Connecting.after(before) == ConnectionPhase::Handshaking);
    assert(events.last() == ConnectionEvent::HelloExchanged);
    assert(before.len() > 0);
    let start = before.drop_last();
    assert(ConnectionPhase::Connecting.after(start) == ConnectionPhase::Connecting);
    assert(before.last() == ConnectionEvent::Accepted);
    lemma_stays_connecting_only_without_events(start);
    assert(events =~= seq![ConnectionEvent::Accepted, ConnectionEvent::HelloExchanged]);
}

/// Every event moves a connection out of `Connecting`, and none leads back.
pub proof fn lemma_stays_connecting_only_without_events(events: Seq<ConnectionEvent>)
    requires
        ConnectionPhase::Connecting.after(events) == ConnectionPhase::Connecting,
    ensures
        events.len() == 0,
{
}

} // verus!
