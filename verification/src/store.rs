//! The sharded store: a fixed, ordered collection of shards.
//!
//! The shard count is chosen once at construction and never changes;
//! `route` sends every key to exactly one shard, so no key is ever
//! visible in two shards or lost in routing. Partitioning the key space
//! bounds contention to keys that share a shard: an operation touches
//! the routed shard alone and leaves every other shard untouched.

use crate::route::route;
use crate::route::route_spec;
use crate::shard::ShardMap;
use vstd::prelude::*;

verus! {

broadcast use crate::route::lemma_route_in_range;

/// A mapping from key to value, split over a fixed number of shards.
pub struct ShardedStore {
    shards: Vec<ShardMap>,
}

impl View for ShardedStore {
    type V = Map<Seq<char>, Seq<u8>>;

    /// The store denotes the map that reads each key through its routed
    /// shard.
    closed spec fn view(&self) -> Map<Seq<char>, Seq<u8>> {
        Map::new(
            |k: Seq<char>|
                self.shards@[route_spec(k, self.shards@.len() as int)]@.contains_key(k),
            |k: Seq<char>| self.shards@[route_spec(k, self.shards@.len() as int)]@[k],
        )
    }
}

impl ShardedStore {
    /// The number of shards, fixed for the store's lifetime.
    pub closed spec fn shard_count(&self) -> int {
        self.shards@.len() as int
    }

    /// The mapping one shard holds.
    pub closed spec fn shard_view(&self, i: int) -> Map<Seq<char>, Seq<u8>> {
        self.shards@[i]@
    }

    /// Well-formed: at least one shard, and every shard's invariant holds.
    pub closed spec fn wf(&self) -> bool {
        &&& self.shards@.len() > 0
        &&& forall|i: int| 0 <= i < self.shards@.len() ==> self.shards@[i].wf()
    }

    /// Creates a store of `shard_count` empty shards.
    pub fn new(shard_count: usize) -> (r: Self)
        requires
            shard_count > 0,
        ensures
            r.wf(),
            r.shard_count() == shard_count as int,
            r@ == Map::<Seq<char>, Seq<u8>>::empty(),
    {
        let mut shards: Vec<ShardMap> = Vec::new();
        let mut i: usize = 0;
        while i < shard_count
            invariant
                i <= shard_count,
                shards@.len() == i,
                forall|j: int|
                    0 <= j < i ==> shards@[j].wf() && shards@[j]@ == Map::<
                        Seq<char>,
                        Seq<u8>,
                    >::empty(),
            decreases shard_count - i,
        {
            shards.push(ShardMap::new());
            i = i + 1;
        }
        let r = ShardedStore { shards };
        proof {
            assert(r@ =~= Map::<Seq<char>, Seq<u8>>::empty());
        }
        r
    }

    /// Routes the key, then looks it up in that shard alone. No side
    /// effect whether the key is present or absent.
    pub fn get<'a>(&'a self, key: &String) -> (r: Option<&'a Vec<u8>>)
        requires
            self.wf(),
        ensures
            match r {
                Some(v) => self@.contains_key(key@) && v@ == self@[key@],
                None => !self@.contains_key(key@),
            },
    {
        let idx = route(key.as_str(), self.shards.len());
        self.shards[idx].get(key)
    }

    /// Routes the key, then inserts or overwrites its mapping in that
    /// shard, unconditionally: the last writer wins. Every shard other
    /// than the routed one is left untouched.
    pub fn set(&mut self, key: String, value: Vec<u8>)
        requires
            old(self).wf(),
        ensures
            final(self).wf(),
            final(self).shard_count() == old(self).shard_count(),
            final(self)@ == old(self)@.insert(key@, value@),
            final(self).shard_view(route_spec(key@, old(self).shard_count()))
                == old(self).shard_view(route_spec(key@, old(self).shard_count())).insert(
                key@,
                value@,
            ),
            forall|j: int|
                0 <= j < old(self).shard_count() && j != route_spec(
                    key@,
                    old(self).shard_count(),
                ) ==> final(self).shard_view(j) == old(self).shard_view(j),
    {
        let ghost key_view = key@;
        let idx = route(key.as_str(), self.shards.len());
        let shard = &mut self.shards[idx];
        shard.set(key, value);
        proof {
            assert(self@ =~= old(self)@.insert(key_view, value@));
        }
    }
}

/// After `set(k, v)`, a `get(k)` sees `v`, whichever shard or caller is
/// involved: inserting `k` into the store's map makes `k` present with
/// value `v`.
pub proof fn lemma_set_then_get(m: Map<Seq<char>, Seq<u8>>, k: Seq<char>, v: Seq<u8>)
    ensures
        m.insert(k, v).contains_key(k),
        m.insert(k, v)[k] == v,
{
}

/// Two causally ordered writes to the same key leave the later value:
/// the earlier insert is fully overwritten.
pub proof fn lemma_overwrite(m: Map<Seq<char>, Seq<u8>>, k: Seq<char>, v1: Seq<u8>, v2: Seq<u8>)
    ensures
        m.insert(k, v1).insert(k, v2) == m.insert(k, v2),
        m.insert(k, v1).insert(k, v2)[k] == v2,
{
    assert(m.insert(k, v1).insert(k, v2) =~= m.insert(k, v2));
}

/// Writes to distinct keys are independent: performed in either order
/// they leave the same store, so neither blocks or disturbs the other.
pub proof fn lemma_distinct_sets_commute(
    m: Map<Seq<char>, Seq<u8>>,
    k1: Seq<char>,
    v1: Seq<u8>,
    k2: Seq<char>,
    v2: Seq<u8>,
)
    requires
        k1 != k2,
    ensures
        m.insert(k1, v1).insert(k2, v2) == m.insert(k2, v2).insert(k1, v1),
{
    assert(m.insert(k1, v1).insert(k2, v2) =~= m.insert(k2, v2).insert(k1, v1));
}

} // verus!
