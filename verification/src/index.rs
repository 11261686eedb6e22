//! The In-Memory Index: a mapping from object id to the current object
//! value, mirroring the durable store so that reads need no storage
//! round-trip. Entries are kept in insertion order; keys are unique.

use vstd::prelude::*;
use vstd::map::*;

verus! {

/// A type whose values can be duplicated without changing their abstraction.
///
/// Derived `Clone` impls are opaque to the verifier, so the library's object
/// types implement this instead: `dup` returns a value with the same view.
pub trait Dup: View + Sized {
    fn dup(&self) -> (r: Self)
        ensures
            r@ == self@;
}

/// The `(key view, value view)` pairs that a vector of keyed entries denotes.
pub open spec fn entry_views<V: View>(es: Seq<(String, V)>) -> Seq<(Seq<char>, V::V)> {
    Seq::new(es.len(), |i: int| (es[i].0@, es[i].1@))
}

/// Whether the keyed sequence `s` holds an entry with key `k`.
pub open spec fn has_key<T>(s: Seq<(Seq<char>, T)>, k: Seq<char>) -> bool {
    exists|i: int| 0 <= i < s.len() && s[i].0 == k
}

/// An index at which `s` holds the key `k` (unique when keys are distinct).
pub open spec fn key_index<T>(s: Seq<(Seq<char>, T)>, k: Seq<char>) -> int {
    choose|i: int| 0 <= i < s.len() && s[i].0 == k
}

/// The value stored under key `k`.
pub open spec fn value_of<T>(s: Seq<(Seq<char>, T)>, k: Seq<char>) -> T {
    s[key_index(s, k)].1
}

/// No two entries of `s` share a key.
pub open spec fn keys_distinct<T>(s: Seq<(Seq<char>, T)>) -> bool {
    forall|i: int, j: int| 0 <= i < j < s.len() ==> s[i].0 != s[j].0
}

/// The mapping that a keyed sequence denotes.
pub open spec fn map_of<T>(s: Seq<(Seq<char>, T)>) -> Map<Seq<char>, T> {
    Map::new(|k: Seq<char>| has_key(s, k), |k: Seq<char>| value_of(s, k))
}

/// With distinct keys, an entry `(k, v)` at index `i` is the one that
/// `key_index`, `value_of` and `map_of` speak of.
pub proof fn lemma_key_at<T>(s: Seq<(Seq<char>, T)>, k: Seq<char>, i: int)
    requires
        keys_distinct(s),
        0 <= i < s.len(),
        s[i].0 == k,
    ensures
        has_key(s, k),
        key_index(s, k) == i,
        value_of(s, k) == s[i].1,
        map_of(s).contains_key(k),
        map_of(s)[k] == s[i].1,
{
    assert(has_key(s, k));
    let j = key_index(s, k);
    assert(0 <= j < s.len() && s[j].0 == k);
    if i < j {
        assert(s[i].0 != s[j].0);
    }
    if j < i {
        assert(s[j].0 != s[i].0);
    }
}

/// A prefix of a distinctly-keyed sequence is distinctly keyed, its next
/// entry's key is fresh, and taking one more entry inserts exactly that
/// entry into the denoted mapping.
pub proof fn lemma_map_of_take_step<T>(s: Seq<(Seq<char>, T)>, i: int)
    requires
        keys_distinct(s),
        0 <= i < s.len(),
    ensures
        keys_distinct(s.take(i)),
        keys_distinct(s.take(i + 1)),
        !has_key(s.take(i), s[i].0),
        map_of(s.take(i + 1)) == map_of(s.take(i)).insert(s[i].0, s[i].1),
{
    let pre = s.take(i);
    let nxt = s.take(i + 1);
    assert forall|p: int, q: int| 0 <= p < q < nxt.len() implies nxt[p].0 != nxt[q].0 by {
        assert(s[p].0 != s[q].0);
    }
    if has_key(pre, s[i].0) {
        let j = key_index(pre, s[i].0);
        assert(s[j].0 == s[i].0);
    }
    assert_maps_equal!(map_of(nxt), map_of(pre).insert(s[i].0, s[i].1), kk => {
        if kk == s[i].0 {
            lemma_key_at(nxt, kk, i);
        } else {
            if has_key(nxt, kk) {
                let j = key_index(nxt, kk);
                assert(nxt[j].0 == kk);
                assert(j < i);
                assert(pre[j].0 == kk);
                lemma_key_at(pre, kk, j);
                lemma_key_at(nxt, kk, j);
            }
            if has_key(pre, kk) {
                let j = key_index(pre, kk);
                assert(pre[j].0 == kk);
                assert(nxt[j].0 == kk);
                lemma_key_at(pre, kk, j);
                lemma_key_at(nxt, kk, j);
            }
        }
    });
}

/// The whole of a sequence is the `len`-prefix of itself.
pub proof fn lemma_take_all<T>(s: Seq<(Seq<char>, T)>)
    ensures
        s.take(s.len() as int) == s,
{
    assert(s.take(s.len() as int) =~= s);
}

/// The in-memory index: id-keyed entries in insertion order, with a
/// map view for contracts. Writers replace or remove entries in place;
/// readers look up by id or take a snapshot of all values.
pub struct IndexMap<V> {
    entries: Vec<(String, V)>,
}

impl<V: View> IndexMap<V> {
    /// The entries as `(key view, value view)` pairs, in order.
    pub closed spec fn entry_seq(&self) -> Seq<(Seq<char>, V::V)> {
        Seq::new(self.entries@.len(), |i: int| (self.entries@[i].0@, self.entries@[i].1@))
    }

    /// Well-formed: no two entries share a key.
    pub open spec fn wf(&self) -> bool {
        keys_distinct(self.entry_seq())
    }
}

impl<V: View> View for IndexMap<V> {
    type V = Map<Seq<char>, V::V>;

    open spec fn view(&self) -> Map<Seq<char>, V::V> {
        map_of(self.entry_seq())
    }
}

impl<V: Dup> IndexMap<V> {
    /// An empty index.
    pub fn new() -> (r: Self)
        ensures
            r.wf(),
            r.entry_seq() == Seq::<(Seq<char>, V::V)>::empty(),
            r@ == Map::<Seq<char>, V::V>::empty(),
    {
        let r = IndexMap { entries: Vec::new() };
        proof {
            assert(r.entry_seq() =~= Seq::<(Seq<char>, V::V)>::empty());
            assert(r@ =~= Map::<Seq<char>, V::V>::empty());
        }
        r
    }

    /// How many objects the index holds.
    pub fn len(&self) -> (r: usize)
        ensures
            r == self.entry_seq().len(),
    {
        self.entries.len()
    }

    /// Borrow the object stored under `id`, if any.
    pub fn get(&self, id: &String) -> (r: Option<&V>)
        requires
            self.wf(),
        ensures
            match r {
                Some(v) => self@.contains_key(id@) && v@ == self@[id@],
                None => !self@.contains_key(id@),
            },
    {
        let n = self.entries.len();
        let mut i: usize = 0;
        while i < n
            invariant
                n == self.entries@.len(),
                i <= n,
                self.wf(),
                forall|j: int| 0 <= j < i ==> self.entry_seq()[j].0 != id@,
            decreases n - i,
        {
            if self.entries[i].0 == *id {
                proof {
                    lemma_key_at(self.entry_seq(), id@, i as int);
                }
                return Some(&self.entries[i].1);
            }
            assert(self.entry_seq()[i as int].0 != id@);
            i += 1;
        }
        proof {
            assert(!has_key(self.entry_seq(), id@));
        }
        None
    }

    /// Store `v` under `id`: replace the existing entry in place, or append
    /// a new one. The map view gains exactly the binding `id -> v`.
    pub fn insert(&mut self, id: String, v: V)
        requires
            old(self).wf(),
        ensures
            final(self).wf(),
            has_key(old(self).entry_seq(), id@) ==> final(self).entry_seq() == old(
                self,
            ).entry_seq().update(key_index(old(self).entry_seq(), id@), (id@, v@)),
            !has_key(old(self).entry_seq(), id@) ==> final(self).entry_seq() == old(
                self,
            ).entry_seq().push((id@, v@)),
            final(self)@ == old(self)@.insert(id@, v@),
    {
        let ghost os = old(self).entry_seq();
        let n = self.entries.len();
        let mut i: usize = 0;
        while i < n
            invariant
                n == self.entries@.len(),
                i <= n,
                self.wf(),
                os == old(self).entry_seq(),
                os == self.entry_seq(),
                forall|j: int| 0 <= j < i ==> self.entry_seq()[j].0 != id@,
            decreases n - i,
        {
            if self.entries[i].0 == id {
                proof {
                    lemma_key_at(os, id@, i as int);
                }
                self.entries[i] = (id, v);
                proof {
                    let ns = self.entry_seq();
                    assert(ns =~= os.update(i as int, (id@, v@)));
                    assert forall|p: int, q: int| 0 <= p < q < ns.len() implies ns[p].0 != ns[q].0 by {
                        assert(os[p].0 != os[q].0);
                    }
                    assert_maps_equal!(map_of(ns), map_of(os).insert(id@, v@), kk => {
                        if kk == id@ {
                            lemma_key_at(ns, kk, i as int);
                        } else {
                            if has_key(ns, kk) {
                                let j = key_index(ns, kk);
                                assert(os[j].0 == kk);
                                lemma_key_at(os, kk, j);
                            }
                            if has_key(os, kk) {
                                let j = key_index(os, kk);
                                assert(ns[j].0 == kk);
                                lemma_key_at(ns, kk, j);
                                lemma_key_at(os, kk, j);
                            }
                        }
                    });
                }
                return ;
            }
            assert(self.entry_seq()[i as int].0 != id@);
            i += 1;
        }
        proof {
            assert(!has_key(os, id@));
        }
        self.entries.push((id, v));
        proof {
            let ns = self.entry_seq();
            assert(ns =~= os.push((id@, v@)));
            assert forall|p: int, q: int| 0 <= p < q < ns.len() implies ns[p].0 != ns[q].0 by {
                if q < os.len() {
                    assert(os[p].0 != os[q].0);
                } else {
                    assert(ns[q].0 == id@);
                    assert(os[p].0 != id@);
                }
            }
            assert_maps_equal!(map_of(ns), map_of(os).insert(id@, v@), kk => {
                if kk == id@ {
                    lemma_key_at(ns, kk, os.len() as int);
                } else {
                    if has_key(ns, kk) {
                        let j = key_index(ns, kk);
                        assert(ns[j].0 == kk);
                        assert(j < os.len());
                        lemma_key_at(os, kk, j);
                        lemma_key_at(ns, kk, j);
                    }
                    if has_key(os, kk) {
                        let j = key_index(os, kk);
                        assert(ns[j].0 == kk);
                        lemma_key_at(ns, kk, j);
                        lemma_key_at(os, kk, j);
                    }
                }
            });
        }
    }

    /// Take the object stored under `id` out of the index, if any.
    pub fn remove(&mut self, id: &String) -> (r: Option<V>)
        requires
            old(self).wf(),
        ensures
            final(self).wf(),
            match r {
                Some(v) => {
                    &&& has_key(old(self).entry_seq(), id@)
                    &&& v@ == value_of(old(self).entry_seq(), id@)
                    &&& final(self).entry_seq() == old(self).entry_seq().remove(
                        key_index(old(self).entry_seq(), id@),
                    )
                    &&& final(self)@ == old(self)@.remove(id@)
                },
                None => {
                    &&& !has_key(old(self).entry_seq(), id@)
                    &&& final(self).entry_seq() == old(self).entry_seq()
                    &&& final(self)@ == old(self)@
                },
            },
    {
        let ghost os = old(self).entry_seq();
        let n = self.entries.len();
        let mut i: usize = 0;
        while i < n
            invariant
                n == self.entries@.len(),
                i <= n,
                self.wf(),
                os == old(self).entry_seq(),
                os == self.entry_seq(),
                forall|j: int| 0 <= j < i ==> self.entry_seq()[j].0 != id@,
            decreases n - i,
        {
            if self.entries[i].0 == *id {
                proof {
                    lemma_key_at(os, id@, i as int);
                }
                let e = self.entries.remove(i);
                proof {
                    let ns = self.entry_seq();
                    assert(ns =~= os.remove(i as int));
                    assert forall|p: int, q: int| 0 <= p < q < ns.len() implies ns[p].0 != ns[q].0 by {
                        let p0: int = if p < i { p } else { p + 1 };
                        let q0: int = if q < i { q } else { q + 1 };
                        assert(ns[p] == os[p0]);
                        assert(ns[q] == os[q0]);
                        assert(os[p0].0 != os[q0].0);
                    }
                    assert_maps_equal!(map_of(ns), map_of(os).remove(id@), kk => {
                        if kk == id@ {
                            if has_key(ns, kk) {
                                let j = key_index(ns, kk);
                                let j0: int = if j < i { j } else { j + 1 };
                                assert(ns[j] == os[j0]);
                                lemma_key_at(os, kk, j0);
                            }
                        } else {
                            if has_key(ns, kk) {
                                let j = key_index(ns, kk);
                                let j0: int = if j < i { j } else { j + 1 };
                                assert(ns[j] == os[j0]);
                                lemma_key_at(os, kk, j0);
                                lemma_key_at(ns, kk, j);
                            }
                            if has_key(os, kk) {
                                let j0 = key_index(os, kk);
                                let j: int = if j0 < i { j0 } else { j0 - 1 };
                                assert(j0 != i);
                                assert(ns[j] == os[j0]);
                                lemma_key_at(os, kk, j0);
                                lemma_key_at(ns, kk, j);
                            }
                        }
                    });
                }
                return Some(e.1);
            }
            assert(self.entry_seq()[i as int].0 != id@);
            i += 1;
        }
        proof {
            assert(!has_key(os, id@));
        }
        None
    }

    /// A snapshot of every entry, keys included, in insertion order.
    pub fn entries_dup(&self) -> (r: Vec<(String, V)>)
        ensures
            entry_views(r@) == self.entry_seq(),
    {
        let n = self.entries.len();
        let mut r: Vec<(String, V)> = Vec::new();
        let mut i: usize = 0;
        while i < n
            invariant
                n == self.entries@.len(),
                i <= n,
                r@.len() == i,
                forall|j: int| 0 <= j < i ==> (r@[j].0@, r@[j].1@) == self.entry_seq()[j],
            decreases n - i,
        {
            let key = self.entries[i].0.clone();
            let v = self.entries[i].1.dup();
            r.push((key, v));
            i += 1;
        }
        proof {
            assert(entry_views(r@) =~= self.entry_seq());
        }
        r
    }

    /// A snapshot of every stored object, in insertion order.
    pub fn values(&self) -> (r: Vec<V>)
        ensures
            r@.len() == self.entry_seq().len(),
            forall|i: int| 0 <= i < r@.len() ==> r@[i]@ == self.entry_seq()[i].1,
    {
        let n = self.entries.len();
        let mut r: Vec<V> = Vec::new();
        let mut i: usize = 0;
        while i < n
            invariant
                n == self.entries@.len(),
                i <= n,
                r@.len() == i,
                forall|j: int| 0 <= j < i ==> r@[j]@ == self.entry_seq()[j].1,
            decreases n - i,
        {
            r.push(self.entries[i].1.dup());
            i += 1;
        }
        r
    }
}

} // verus!
