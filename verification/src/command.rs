//! Decoded commands, responses, and the dispatcher.
//!
//! The dispatcher interprets one decoded command against the store and
//! produces the response frame's value. It has no side effect beyond
//! the store mutation a `Put` asks for.

use crate::store::ShardedStore;
use vstd::prelude::*;

verus! {

/// A decoded client request. Only these two reach the dispatcher; a
/// command outside them is rejected at the connection boundary and
/// never touches the store.
pub enum Command {
    /// Bind `key` to `value`, overwriting any previous binding.
    Put { key: String, value: Vec<u8> },
    /// Read the value bound to `key`.
    Get { key: String },
}

/// A server reply, handed to the connection boundary for encoding.
pub enum Response {
    /// The write was applied.
    Done,
    /// The value stored under the requested key.
    Bulk(Vec<u8>),
    /// The requested key is absent.
    Nil,
}

/// The store's map after one command: `Put` inserts, `Get` changes
/// nothing.
pub open spec fn store_after(m: Map<Seq<char>, Seq<u8>>, cmd: Command) -> Map<
    Seq<char>,
    Seq<u8>,
> {
    match cmd {
        Command::Put { key, value } => m.insert(key@, value@),
        Command::Get { .. } => m,
    }
}

/// The response owed to one command against a store holding `m`:
/// `Done` for a write, the bound value for a read of a present key, and
/// `Nil` for a read of an absent key.
pub open spec fn response_matches(resp: Response, m: Map<Seq<char>, Seq<u8>>, cmd: Command) -> bool {
    match cmd {
        Command::Put { .. } => resp == Response::Done,
        Command::Get { key } => if m.contains_key(key@) {
            resp matches Response::Bulk(v) && v@ == m[key@]
        } else {
            resp == Response::Nil
        },
    }
}

/// Copies a byte value out of the store.
pub(crate) fn copy_bytes(v: &Vec<u8>) -> (r: Vec<u8>)
    ensures
        r@ == v@,
{
    let mut r: Vec<u8> = Vec::new();
    let mut i: usize = 0;
    while i < v.len()
        invariant
            i <= v@.len(),
            r@ == v@.subrange(0, i as int),
        decreases v@.len() - i,
    {
        r.push(v[i]);
        i = i + 1;
    }
    proof {
        assert(r@ =~= v@);
    }
    r
}

/// Interprets one command against the store: `Put` writes its binding
/// and answers `Done`; `Get` answers the bound value, or `Nil` when the
/// key is absent, and leaves the store as it was.
pub fn dispatch(cmd: Command, store: &mut ShardedStore) -> (resp: Response)
    requires
        old(store).wf(),
    ensures
        final(store).wf(),
        final(store).shard_count() == old(store).shard_count(),
        final(store)@ == store_after(old(store)@, cmd),
        response_matches(resp, old(store)@, cmd),
{
    match cmd {
        Command::Put { key, value } => {
            store.set(key, value);
            Response::Done
        },
        Command::Get { key } => {
            match store.get(&key) {
                Some(v) => Response::Bulk(copy_bytes(v)),
                None => Response::Nil,
            }
        },
    }
}

/// A key that was never set is read as absent, never as an error: on a
/// store whose map does not hold the key, the only response a `Get` can
/// be owed is `Nil`.
pub proof fn lemma_get_absent(m: Map<Seq<char>, Seq<u8>>, key: String, resp: Response)
    requires
        !m.contains_key(key@),
        response_matches(resp, m, Command::Get { key }),
    ensures
        resp == Response::Nil,
{
}

/// Once a `set(k, v)` has completed, a `get(k)` is owed exactly `v`,
/// whoever issued either command: against the store a `Put` leaves
/// behind, the only response a `Get` of the same key can be owed is the
/// bulk value written.
pub proof fn lemma_set_then_get_visible(
    m: Map<Seq<char>, Seq<u8>>,
    key: String,
    value: Vec<u8>,
    resp: Response,
)
    requires
        response_matches(
            resp,
            store_after(m, Command::Put { key, value }),
            Command::Get { key },
        ),
    ensures
        resp matches Response::Bulk(v) && v@ == value@,
{
}

/// Two causally ordered writes to one key leave the later value: a
/// `get(k)` after `set(k, v1)` and then `set(k, v2)` is owed `v2`.
pub proof fn lemma_overwrite_wins(
    m: Map<Seq<char>, Seq<u8>>,
    key: String,
    v1: Vec<u8>,
    v2: Vec<u8>,
    resp: Response,
)
    requires
        response_matches(
            resp,
            store_after(
                store_after(m, Command::Put { key: key, value: v1 }),
                Command::Put { key: key, value: v2 },
            ),
            Command::Get { key },
        ),
    ensures
        resp matches Response::Bulk(v) && v@ == v2@,
{
}

} // verus!
