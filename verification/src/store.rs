//! The Durable Store boundary: key-value persistence with get/put/delete,
//! assumed crash-consistent per single key. The registry consumes it
//! through the [`KvStore`] interface; [`MemStore`] is the library's own
//! in-memory implementation, with switchable write failure so that
//! storage faults can be exercised.

use vstd::prelude::*;
use vstd::map::*;
use crate::index::{entry_views, keys_distinct, map_of, Dup, IndexMap};

verus! {

/// The durable store rejected a read or write.
#[derive(Debug)]
pub struct StoreFault;

/// The restriction of `m` to the values satisfying `p`: what a registry's
/// in-memory index holds of a store whose malformed entries were skipped.
pub open spec fn restrict_map<T>(m: Map<Seq<char>, T>, p: spec_fn(T) -> bool) -> Map<
    Seq<char>,
    T,
> {
    Map::new(|k: Seq<char>| m.contains_key(k) && p(m[k]), |k: Seq<char>| m[k])
}

/// Inserting a value that satisfies `p` commutes with the restriction.
pub proof fn lemma_restrict_insert<T>(m: Map<Seq<char>, T>, p: spec_fn(T) -> bool, k: Seq<char>, v: T)
    requires
        p(v),
    ensures
        restrict_map(m.insert(k, v), p) == restrict_map(m, p).insert(k, v),
{
    assert_maps_equal!(restrict_map(m.insert(k, v), p), restrict_map(m, p).insert(k, v), kk => {
    });
}

/// Inserting a fresh value that fails `p` leaves the restriction unchanged.
pub proof fn lemma_restrict_insert_skipped<T>(
    m: Map<Seq<char>, T>,
    p: spec_fn(T) -> bool,
    k: Seq<char>,
    v: T,
)
    requires
        !p(v),
        !m.contains_key(k),
    ensures
        restrict_map(m.insert(k, v), p) == restrict_map(m, p),
{
    assert_maps_equal!(restrict_map(m.insert(k, v), p), restrict_map(m, p), kk => {
    });
}

/// Removing a key commutes with the restriction.
pub proof fn lemma_restrict_remove<T>(m: Map<Seq<char>, T>, p: spec_fn(T) -> bool, k: Seq<char>)
    ensures
        restrict_map(m.remove(k), p) == restrict_map(m, p).remove(k),
{
    assert_maps_equal!(restrict_map(m.remove(k), p), restrict_map(m, p).remove(k), kk => {
    });
}

/// An empty store restricts to an empty index.
pub proof fn lemma_restrict_empty<T>(p: spec_fn(T) -> bool)
    ensures
        restrict_map(Map::<Seq<char>, T>::empty(), p) == Map::<Seq<char>, T>::empty(),
{
    assert_maps_equal!(restrict_map(Map::<Seq<char>, T>::empty(), p), Map::<Seq<char>, T>::empty(), kk => {
    });
}

/// Key-value persistence as the registry sees it: a mapping from key to
/// stored object, each write atomic per key. A failed write leaves the
/// contents unchanged, and writes fail only while the store is fallible.
pub trait KvStore<V: View>: Sized {
    /// Well-formedness of the store value itself.
    spec fn wf(&self) -> bool;

    /// The authoritative mapping the store currently holds.
    spec fn contents(&self) -> Map<Seq<char>, V::V>;

    /// Whether the store may currently reject writes.
    spec fn fallible(&self) -> bool;

    /// Persist `value` under `key`, overwriting atomically.
    fn put(&mut self, key: &String, value: V) -> (r: Result<(), StoreFault>)
        requires
            old(self).wf(),
        ensures
            final(self).wf(),
            final(self).fallible() == old(self).fallible(),
            r is Ok ==> final(self).contents() == old(self).contents().insert(key@, value@),
            r is Err ==> final(self).contents() == old(self).contents(),
            r is Err ==> old(self).fallible(),
    ;

    /// Remove whatever is stored under `key`.
    fn del(&mut self, key: &String) -> (r: Result<(), StoreFault>)
        requires
            old(self).wf(),
        ensures
            final(self).wf(),
            final(self).fallible() == old(self).fallible(),
            r is Ok ==> final(self).contents() == old(self).contents().remove(key@),
            r is Err ==> final(self).contents() == old(self).contents(),
            r is Err ==> old(self).fallible(),
    ;

    /// Read every stored entry, for hydrating the in-memory index.
    fn load_all(&self) -> (r: Result<Vec<(String, V)>, StoreFault>)
        requires
            self.wf(),
        ensures
            match r {
                Ok(es) => {
                    &&& keys_distinct(entry_views(es@))
                    &&& map_of(entry_views(es@)) == self.contents()
                },
                Err(_) => self.fallible(),
            },
    ;
}

/// An in-memory durable store. Its writes can be switched to fail, so a
/// storage fault and the registry's fail-closed behaviour around it can be
/// exercised without a real backend.
pub struct MemStore<V> {
    map: IndexMap<V>,
    failing: bool,
}

impl<V: Dup> MemStore<V> {
    /// An empty store that accepts writes.
    pub fn new() -> (r: Self)
        ensures
            r.wf(),
            r.contents() == Map::<Seq<char>, V::V>::empty(),
            !r.fallible(),
    {
        MemStore { map: IndexMap::new(), failing: false }
    }

    /// Switch write failure on or off. The contents are untouched.
    pub fn set_failing(&mut self, failing: bool)
        requires
            old(self).wf(),
        ensures
            final(self).wf(),
            final(self).contents() == old(self).contents(),
            final(self).fallible() == failing,
    {
        self.failing = failing;
    }
}

impl<V: Dup> KvStore<V> for MemStore<V> {
    closed spec fn wf(&self) -> bool {
        self.map.wf()
    }

    closed spec fn contents(&self) -> Map<Seq<char>, V::V> {
        self.map@
    }

    closed spec fn fallible(&self) -> bool {
        self.failing
    }

    fn put(&mut self, key: &String, value: V) -> (r: Result<(), StoreFault>) {
        if self.failing {
            Err(StoreFault)
        } else {
            self.map.insert(key.clone(), value);
            Ok(())
        }
    }

    fn del(&mut self, key: &String) -> (r: Result<(), StoreFault>) {
        if self.failing {
            Err(StoreFault)
        } else {
            let removed = self.map.remove(key);
            proof {
                if removed is None {
                    assert(old(self).contents().remove(key@) =~= old(self).contents());
                }
            }
            Ok(())
        }
    }

    fn load_all(&self) -> (r: Result<Vec<(String, V)>, StoreFault>) {
        let es = self.map.entries_dup();
        Ok(es)
    }
}

} // verus!
