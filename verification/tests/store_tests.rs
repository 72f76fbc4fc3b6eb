use sharded_kv::command::Command;
use sharded_kv::command::Response;
use sharded_kv::command::dispatch;
use sharded_kv::route::route;
use sharded_kv::shard::ShardMap;
use sharded_kv::store::ShardedStore;

fn bytes(s: &str) -> Vec<u8> {
    s.as_bytes().to_vec()
}

#[test]
fn set_then_get_returns_value() {
    let mut store = ShardedStore::new(16);
    store.set("foo".to_string(), bytes("bar"));
    let got = store.get(&"foo".to_string());
    assert_eq!(got, Some(&bytes("bar")));
}

#[test]
fn get_never_set_is_absent() {
    let store = ShardedStore::new(16);
    assert_eq!(store.get(&"missing".to_string()), None);
    let mut store = store;
    store.set("other".to_string(), bytes("1"));
    assert_eq!(store.get(&"missing".to_string()), None);
}

#[test]
fn overwrite_takes_last_value() {
    let mut store = ShardedStore::new(4);
    store.set("k".to_string(), bytes("v1"));
    store.set("k".to_string(), bytes("v2"));
    assert_eq!(store.get(&"k".to_string()), Some(&bytes("v2")));
}

#[test]
fn overwrite_across_shard_counts() {
    for n in [1usize, 2, 3, 7, 64] {
        let mut store = ShardedStore::new(n);
        store.set("k".to_string(), bytes("a"));
        store.set("k".to_string(), bytes("b"));
        assert_eq!(store.get(&"k".to_string()), Some(&bytes("b")));
    }
}

#[test]
fn route_is_deterministic() {
    for key in ["", "foo", "bar", "a somewhat longer key", "\u{00e9}\u{4e16}"] {
        let first = route(key, 16);
        for _ in 0..3 {
            assert_eq!(route(key, 16), first);
        }
        assert!(first < 16);
    }
}

#[test]
fn route_matches_fnv1a() {
    // FNV-1a of "foo" is 0xdcb27518fed9d577; modulo 16 that is 7.
    assert_eq!(route("foo", 16), 7);
    // FNV-1a of "bar" is 0x003934191339461a; modulo 16 that is 10.
    assert_eq!(route("bar", 16), 10);
    // The empty key hashes to the offset basis 0xcbf29ce484222325.
    assert_eq!(route("", 16), 5);
}

#[test]
fn distinct_keys_do_not_disturb_each_other() {
    let mut store = ShardedStore::new(8);
    let keys: Vec<String> = (0..32).map(|i| format!("key-{}", i)).collect();
    for (i, k) in keys.iter().enumerate() {
        store.set(k.clone(), bytes(&format!("value-{}", i)));
    }
    for (i, k) in keys.iter().enumerate() {
        assert_eq!(store.get(k), Some(&bytes(&format!("value-{}", i))));
    }
}

#[test]
fn dispatch_put_answers_done_and_writes() {
    let mut store = ShardedStore::new(4);
    let resp = dispatch(
        Command::Put { key: "foo".to_string(), value: bytes("bar") },
        &mut store,
    );
    assert!(matches!(resp, Response::Done));
    assert_eq!(store.get(&"foo".to_string()), Some(&bytes("bar")));
}

#[test]
fn dispatch_get_answers_bulk_or_nil() {
    let mut store = ShardedStore::new(4);
    store.set("present".to_string(), bytes("42"));
    let hit = dispatch(Command::Get { key: "present".to_string() }, &mut store);
    match hit {
        Response::Bulk(v) => assert_eq!(v, bytes("42")),
        _ => panic!("expected a bulk value"),
    }
    let miss = dispatch(Command::Get { key: "absent".to_string() }, &mut store);
    assert!(matches!(miss, Response::Nil));
}

#[test]
fn empty_shard_map_is_empty() {
    let shard = ShardMap::new();
    assert_eq!(shard.get(&"anything".to_string()), None);
}

#[test]
fn shard_map_set_get_overwrite() {
    let mut shard = ShardMap::new();
    shard.set("a".to_string(), bytes("1"));
    shard.set("b".to_string(), bytes("2"));
    shard.set("a".to_string(), bytes("3"));
    assert_eq!(shard.get(&"a".to_string()), Some(&bytes("3")));
    assert_eq!(shard.get(&"b".to_string()), Some(&bytes("2")));
    assert_eq!(shard.get(&"c".to_string()), None);
}

#[test]
fn empty_value_round_trips() {
    let mut store = ShardedStore::new(3);
    store.set("empty".to_string(), Vec::new());
    assert_eq!(store.get(&"empty".to_string()), Some(&Vec::new()));
}

#[test]
fn non_ascii_keys_round_trip() {
    let mut store = ShardedStore::new(5);
    store.set("cl\u{00e9}".to_string(), bytes("v1"));
    store.set("\u{9375}".to_string(), bytes("v2"));
    assert_eq!(store.get(&"cl\u{00e9}".to_string()), Some(&bytes("v1")));
    assert_eq!(store.get(&"\u{9375}".to_string()), Some(&bytes("v2")));
}
