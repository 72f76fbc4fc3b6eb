//! The per-connection loop, as a state machine.
//!
//! A connection driver owns the socket and the framing; this module
//! owns the decisions. The driver reads one event at a time — a decoded
//! command, a frame outside the supported commands, a malformed frame,
//! or the end of the stream — hands it to `step` together with the
//! shared store, performs the returned action, and repeats until the
//! state is `Closed`. Commands are handled strictly in arrival order:
//! one command's response is written before the next event is read.

use crate::command::Command;
use crate::command::Response;
use crate::command::dispatch;
use crate::command::response_matches;
use crate::command::store_after;
use crate::store::ShardedStore;
use vstd::prelude::*;

verus! {

/// The connection's state: awaiting the next event, or done.
#[derive(Clone, Copy, Debug, PartialEq, Eq, Structural)]
pub enum ConnState {
    /// Awaiting the next command from the connection boundary.
    Reading,
    /// Terminal: no further command is processed on this connection.
    Closed,
}

/// One observation at the connection boundary.
pub enum ConnEvent {
    /// A full frame arrived and decoded to a supported command.
    Request(Command),
    /// A full frame arrived and decoded, but to a command outside
    /// GET/SET.
    Unsupported,
    /// The incoming bytes were not a well-formed frame.
    Malformed,
    /// The peer ended the stream; a normal close.
    StreamEnd,
}

/// What the driver must do after one step.
pub enum ConnAction {
    /// Encode and write this response, then read the next event.
    Reply(Response),
    /// Write a protocol-error frame, then close the connection.
    ReplyError,
    /// Close the connection without writing.
    Close,
}

/// The connection state after one event: a handled request keeps the
/// connection reading; everything else closes it, and a closed
/// connection stays closed.
pub open spec fn step_state(state: ConnState, event: ConnEvent) -> ConnState {
    match (state, event) {
        (ConnState::Reading, ConnEvent::Request(_)) => ConnState::Reading,
        _ => ConnState::Closed,
    }
}

/// The store's map after one event: only a request read in the
/// `Reading` state touches the store; an unsupported or malformed frame
/// never corrupts it.
pub open spec fn step_store(state: ConnState, event: ConnEvent, m: Map<Seq<char>, Seq<u8>>) -> Map<
    Seq<char>,
    Seq<u8>,
> {
    match (state, event) {
        (ConnState::Reading, ConnEvent::Request(cmd)) => store_after(m, cmd),
        _ => m,
    }
}

/// The action owed after one event against a store holding `m`: a reply
/// for a handled request, a protocol error for an unsupported or
/// malformed frame, and a silent close for stream end or an already
/// closed connection.
pub open spec fn step_action_matches(
    state: ConnState,
    event: ConnEvent,
    m: Map<Seq<char>, Seq<u8>>,
    action: ConnAction,
) -> bool {
    match (state, event) {
        (ConnState::Reading, ConnEvent::Request(cmd)) => action matches ConnAction::Reply(resp)
            && response_matches(resp, m, cmd),
        (ConnState::Reading, ConnEvent::Unsupported) => action == ConnAction::ReplyError,
        (ConnState::Reading, ConnEvent::Malformed) => action == ConnAction::ReplyError,
        (ConnState::Reading, ConnEvent::StreamEnd) => action == ConnAction::Close,
        (ConnState::Closed, _) => action == ConnAction::Close,
    }
}

/// Drives the connection by one event. The driver performs the returned
/// action, then calls again with the returned state; it stops at
/// `Closed`. Errors on one connection stay on that connection: the
/// store is only ever touched through a supported command.
pub fn step(state: ConnState, event: ConnEvent, store: &mut ShardedStore) -> (r: (
    ConnState,
    ConnAction,
))
    requires
        old(store).wf(),
    ensures
        final(store).wf(),
        final(store).shard_count() == old(store).shard_count(),
        final(store)@ == step_store(state, event, old(store)@),
        r.0 == step_state(state, event),
        step_action_matches(state, event, old(store)@, r.1),
{
    match state {
        ConnState::Closed => (ConnState::Closed, ConnAction::Close),
        ConnState::Reading => match event {
            ConnEvent::Request(cmd) => {
                let resp = dispatch(cmd, store);
                (ConnState::Reading, ConnAction::Reply(resp))
            },
            ConnEvent::Unsupported => (ConnState::Closed, ConnAction::ReplyError),
            ConnEvent::Malformed => (ConnState::Closed, ConnAction::ReplyError),
            ConnEvent::StreamEnd => (ConnState::Closed, ConnAction::Close),
        },
    }
}

/// Per-connection ordering: on one connection a `set(k, v)` completes —
/// response and all — before the next event is read, so the `get(k)`
/// stepped right after it is owed exactly `v`, never "absent" and never
/// a stale value.
pub proof fn lemma_per_connection_order(
    m: Map<Seq<char>, Seq<u8>>,
    key: String,
    value: Vec<u8>,
    action: ConnAction,
)
    requires
        step_action_matches(
            ConnState::Reading,
            ConnEvent::Request(Command::Get { key }),
            step_store(
                ConnState::Reading,
                ConnEvent::Request(Command::Put { key, value }),
                m,
            ),
            action,
        ),
    ensures
        action matches ConnAction::Reply(resp) && (resp matches Response::Bulk(v) && v@
            == value@),
{
}

} // verus!
