use sharded_kv::command::Command;
use sharded_kv::command::Response;
use sharded_kv::conn::ConnAction;
use sharded_kv::conn::ConnEvent;
use sharded_kv::conn::ConnState;
use sharded_kv::conn::step;
use sharded_kv::shared::SharedStore;
use sharded_kv::shared::step_shared;
use sharded_kv::store::ShardedStore;

fn bytes(s: &str) -> Vec<u8> {
    s.as_bytes().to_vec()
}

fn expect_reply(r: (ConnState, ConnAction)) -> (ConnState, Response) {
    match r {
        (state, ConnAction::Reply(resp)) => (state, resp),
        _ => panic!("expected a reply"),
    }
}

#[test]
fn per_connection_ordering() {
    let mut store = ShardedStore::new(8);
    let state = ConnState::Reading;
    let (state, resp) = expect_reply(step(
        state,
        ConnEvent::Request(Command::Put { key: "k".to_string(), value: bytes("a") }),
        &mut store,
    ));
    assert!(matches!(resp, Response::Done));
    let (_, resp) = expect_reply(step(
        state,
        ConnEvent::Request(Command::Get { key: "k".to_string() }),
        &mut store,
    ));
    match resp {
        Response::Bulk(v) => assert_eq!(v, bytes("a")),
        _ => panic!("expected the value just written, not absent or stale"),
    }
}

#[test]
fn scenario_set_then_get_round_trip() {
    let mut store = ShardedStore::new(8);
    let (state, resp) = expect_reply(step(
        ConnState::Reading,
        ConnEvent::Request(Command::Put { key: "foo".to_string(), value: bytes("bar") }),
        &mut store,
    ));
    assert_eq!(state, ConnState::Reading);
    assert!(matches!(resp, Response::Done));
    let (state, resp) = expect_reply(step(
        state,
        ConnEvent::Request(Command::Get { key: "foo".to_string() }),
        &mut store,
    ));
    assert_eq!(state, ConnState::Reading);
    match resp {
        Response::Bulk(v) => assert_eq!(v, bytes("bar")),
        _ => panic!("expected bulk value bar"),
    }
}

#[test]
fn scenario_get_missing_is_nil_not_error() {
    let mut store = ShardedStore::new(8);
    let (state, resp) = expect_reply(step(
        ConnState::Reading,
        ConnEvent::Request(Command::Get { key: "missing".to_string() }),
        &mut store,
    ));
    assert_eq!(state, ConnState::Reading);
    assert!(matches!(resp, Response::Nil));
}

#[test]
fn scenario_cross_connection_visibility() {
    let store = SharedStore::new(8);
    // Connection A writes and is answered before B reads.
    let (state_a, action_a) = step_shared(
        ConnState::Reading,
        ConnEvent::Request(Command::Put { key: "x".to_string(), value: bytes("1") }),
        &store,
    );
    assert_eq!(state_a, ConnState::Reading);
    assert!(matches!(action_a, ConnAction::Reply(Response::Done)));
    // Connection B, a different loop over the same store.
    let (state_b, action_b) = step_shared(
        ConnState::Reading,
        ConnEvent::Request(Command::Get { key: "x".to_string() }),
        &store,
    );
    assert_eq!(state_b, ConnState::Reading);
    match action_b {
        ConnAction::Reply(Response::Bulk(v)) => assert_eq!(v, bytes("1")),
        _ => panic!("expected the value written by the other connection"),
    }
}

#[test]
fn scenario_unsupported_command_closes_without_corruption() {
    let store = SharedStore::new(8);
    let (state, action) = step_shared(
        ConnState::Reading,
        ConnEvent::Request(Command::Put { key: "x".to_string(), value: bytes("1") }),
        &store,
    );
    assert_eq!(state, ConnState::Reading);
    assert!(matches!(action, ConnAction::Reply(Response::Done)));
    // The same connection now sends something outside GET/SET.
    let (state, action) = step_shared(state, ConnEvent::Unsupported, &store);
    assert_eq!(state, ConnState::Closed);
    assert!(matches!(action, ConnAction::ReplyError));
    // Once closed, the connection processes nothing further.
    let (state, action) = step_shared(
        state,
        ConnEvent::Request(Command::Get { key: "x".to_string() }),
        &store,
    );
    assert_eq!(state, ConnState::Closed);
    assert!(matches!(action, ConnAction::Close));
    // A new connection still sees the prior state: the store is unaffected.
    let (_, action) = step_shared(
        ConnState::Reading,
        ConnEvent::Request(Command::Get { key: "x".to_string() }),
        &store,
    );
    match action {
        ConnAction::Reply(Response::Bulk(v)) => assert_eq!(v, bytes("1")),
        _ => panic!("store must be unaffected by the rejected command"),
    }
}

#[test]
fn stream_end_closes_silently() {
    let mut store = ShardedStore::new(8);
    let (state, action) = step(ConnState::Reading, ConnEvent::StreamEnd, &mut store);
    assert_eq!(state, ConnState::Closed);
    assert!(matches!(action, ConnAction::Close));
}

#[test]
fn malformed_frame_reports_protocol_error_and_closes() {
    let mut store = ShardedStore::new(8);
    store.set("kept".to_string(), bytes("v"));
    let (state, action) = step(ConnState::Reading, ConnEvent::Malformed, &mut store);
    assert_eq!(state, ConnState::Closed);
    assert!(matches!(action, ConnAction::ReplyError));
    assert_eq!(store.get(&"kept".to_string()), Some(&bytes("v")));
}

#[test]
fn shared_store_distinct_shards_all_complete() {
    let store = SharedStore::new(8);
    // Keys chosen freely; each lands on its own shard or shares one, and
    // every write completes and stays readable either way.
    for i in 0..64 {
        store.set(format!("key-{}", i), bytes(&format!("{}", i)));
    }
    for i in 0..64 {
        assert_eq!(store.get(&format!("key-{}", i)), Some(bytes(&format!("{}", i))));
    }
}
