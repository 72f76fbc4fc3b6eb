//! A store shared among concurrent connection units.
//!
//! Each shard sits behind its own reader-writer lock: the shard is the
//! unit of exclusive access, so operations on keys that route to
//! different shards never contend, and one slow client cannot hold up
//! another's shard. An operation acquires the routed shard's lock,
//! performs the pure mapping operation, and releases before returning —
//! no I/O ever happens while a lock is held. Across connections,
//! concurrent operations on one key race, and the outcome is whichever
//! acquires the shard's lock first; that race is part of the design,
//! and the sequential [`crate::store::ShardedStore`] carries the
//! functional laws that each single operation obeys.

use crate::command::Command;
use crate::command::Response;
use crate::command::copy_bytes;
use crate::conn::ConnAction;
use crate::conn::ConnEvent;
use crate::conn::ConnState;
use crate::conn::step_state;
use crate::route::route;
use crate::route::route_spec;
use crate::shard::ShardMap;
use vstd::prelude::*;
use vstd::rwlock::RwLock;
use vstd::rwlock::RwLockPredicate;

verus! {

broadcast use crate::route::lemma_route_in_range;

/// The lock invariant of one shard: the mapping is well-formed and
/// holds only keys that route to this shard's index, so no key is ever
/// visible in two shards.
pub struct ShardHome {
    /// The guarded shard's index.
    pub idx: int,
    /// The store's shard count.
    pub count: int,
}

impl RwLockPredicate<ShardMap> for ShardHome {
    open spec fn inv(self, m: ShardMap) -> bool {
        &&& m.wf()
        &&& forall|k: Seq<char>| m@.contains_key(k) ==> #[trigger] route_spec(k, self.count) == self.idx
    }
}

/// A store whose shards are each guarded by their own lock, so that
/// many connection units can drive it through one shared reference.
pub struct SharedStore {
    locks: Vec<RwLock<ShardMap, ShardHome>>,
}

impl SharedStore {
    /// The number of shards, fixed at construction.
    pub closed spec fn shard_count(&self) -> int {
        self.locks@.len() as int
    }

    /// Well-formed: at least one shard, and shard `i`'s lock admits
    /// exactly the well-formed mappings whose keys route to `i`.
    pub closed spec fn wf(&self) -> bool {
        &&& self.locks@.len() > 0
        &&& forall|i: int|
            0 <= i < self.locks@.len() ==> self.locks@[i].pred() == (ShardHome {
                idx: i,
                count: self.locks@.len() as int,
            })
    }

    /// Creates a store of `shard_count` empty shards, each behind its
    /// own lock.
    pub fn new(shard_count: usize) -> (r: Self)
        requires
            shard_count > 0,
        ensures
            r.wf(),
            r.shard_count() == shard_count as int,
    {
        let mut locks: Vec<RwLock<ShardMap, ShardHome>> = Vec::new();
        let mut i: usize = 0;
        while i < shard_count
            invariant
                i <= shard_count,
                locks@.len() == i,
                forall|j: int|
                    0 <= j < i ==> locks@[j].pred() == (ShardHome {
                        idx: j,
                        count: shard_count as int,
                    }),
            decreases shard_count - i,
        {
            let m = ShardMap::new();
            let lock = RwLock::new(
                m,
                Ghost(ShardHome { idx: i as int, count: shard_count as int }),
            );
            locks.push(lock);
            i = i + 1;
        }
        SharedStore { locks }
    }

    /// Acquires the routed shard's lock exclusively, inserts or
    /// overwrites the binding, and releases before returning: the write
    /// touches that one shard alone, and holds no lock across I/O.
    pub fn set(&self, key: String, value: Vec<u8>)
        requires
            self.wf(),
    {
        let ghost cnt = self.locks@.len() as int;
        let ghost key_view = key@;
        let idx = route(key.as_str(), self.locks.len());
        let (mut m, handle) = self.locks[idx].acquire_write();
        let ghost m_init = m;
        m.set(key, value);
        proof {
            let ghost home = ShardHome { idx: idx as int, count: cnt };
            assert(home.count == cnt && home.idx == idx as int);
            assert(handle.rwlock().pred() == home);
            assert forall|k: Seq<char>| m@.contains_key(k) implies route_spec(k, cnt) == idx as int by {
                if k != key_view {
                    assert(m_init@.contains_key(k));
                    assert(route_spec(k, home.count) == home.idx);
                }
            }
        }
        handle.release_write(m);
    }

    /// Acquires the routed shard's lock, looks the key up, copies the
    /// value out, and releases before returning. The lock invariant
    /// keeps every shard's keys routed to it, so the lookup can only
    /// ever see a value bound to this very key.
    pub fn get(&self, key: &String) -> (r: Option<Vec<u8>>)
        requires
            self.wf(),
    {
        let idx = route(key.as_str(), self.locks.len());
        let read_handle = self.locks[idx].acquire_read();
        let r = match read_handle.borrow().get(key) {
            Some(v) => Some(copy_bytes(v)),
            None => None,
        };
        read_handle.release_read();
        r
    }

    /// Interprets one command against the shared store. Which value a
    /// concurrent `Get` observes is decided by lock order — the
    /// documented race — but the response's shape is not: a write
    /// answers `Done`, a read answers `Bulk` or `Nil`, never an error.
    pub fn dispatch(&self, cmd: Command) -> (resp: Response)
        requires
            self.wf(),
        ensures
            cmd matches Command::Put { .. } ==> resp == Response::Done,
            cmd matches Command::Get { .. } ==> (resp matches Response::Bulk(_) || resp
                == Response::Nil),
    {
        match cmd {
            Command::Put { key, value } => {
                self.set(key, value);
                Response::Done
            },
            Command::Get { key } => {
                match self.get(&key) {
                    Some(v) => Response::Bulk(v),
                    None => Response::Nil,
                }
            },
        }
    }
}

/// The shape of the action owed after one event on a shared store: a
/// reply of the right kind for a handled request, a protocol error for
/// an unsupported or malformed frame, a silent close for stream end.
pub open spec fn step_action_shape(state: ConnState, event: ConnEvent, action: ConnAction) -> bool {
    match (state, event) {
        (ConnState::Reading, ConnEvent::Request(cmd)) => action matches ConnAction::Reply(resp)
            && (cmd matches Command::Put { .. } ==> resp == Response::Done) && (
        cmd matches Command::Get { .. } ==> (resp matches Response::Bulk(_) || resp
            == Response::Nil)),
        (ConnState::Reading, ConnEvent::Unsupported) => action == ConnAction::ReplyError,
        (ConnState::Reading, ConnEvent::Malformed) => action == ConnAction::ReplyError,
        (ConnState::Reading, ConnEvent::StreamEnd) => action == ConnAction::Close,
        (ConnState::Closed, _) => action == ConnAction::Close,
    }
}

/// Drives one connection by one event against the shared store, as
/// [`crate::conn::step`] does against an exclusively held one. The
/// driver performs the returned action and calls again with the
/// returned state until it is `Closed`; an unsupported or malformed
/// frame closes this one connection and leaves the store untouched.
pub fn step_shared(state: ConnState, event: ConnEvent, store: &SharedStore) -> (r: (
    ConnState,
    ConnAction,
))
    requires
        store.wf(),
    ensures
        r.0 == step_state(state, event),
        step_action_shape(state, event, r.1),
{
    match state {
        ConnState::Closed => (ConnState::Closed, ConnAction::Close),
        ConnState::Reading => match event {
            ConnEvent::Request(cmd) => {
                let resp = store.dispatch(cmd);
                (ConnState::Reading, ConnAction::Reply(resp))
            },
            ConnEvent::Unsupported => (ConnState::Closed, ConnAction::ReplyError),
            ConnEvent::Malformed => (ConnState::Closed, ConnAction::ReplyError),
            ConnEvent::StreamEnd => (ConnState::Closed, ConnAction::Close),
        },
    }
}

} // verus!
