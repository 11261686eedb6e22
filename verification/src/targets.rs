//! The Target Registry: notification targets behind atomic
//! create/read/update/delete, mirrored between the durable store and the
//! in-memory index. Identifiers are generated at creation; a target's
//! `name` is immutable afterwards.

use vstd::prelude::*;
use crate::errors::{outcome, ErrorModel, RegistryError};
use crate::idgen;
use crate::index::{entry_views, has_key, key_index, keys_distinct, lemma_key_at,
    lemma_map_of_take_step, lemma_take_all,
    map_of, value_of, Dup, IndexMap};
use crate::store::{lemma_restrict_empty, lemma_restrict_insert, lemma_restrict_insert_skipped,
    lemma_restrict_remove, restrict_map, KvStore};
use crate::target::{target_valid, Target, TargetModel};

verus! {

/// What a read of `id` against the index mapping `m` returns.
pub open spec fn target_get_outcome(m: Map<Seq<char>, TargetModel>, id: Seq<char>) -> Result<
    TargetModel,
    ErrorModel,
> {
    if m.contains_key(id) {
        Ok(m[id])
    } else {
        Err(ErrorModel::NotFound)
    }
}

/// Idempotent read: two reads of the same id with no intervening write
/// return identical values — the outcome of a read is a function of the
/// registry state and the id alone.
pub proof fn reads_idempotent(
    m: Map<Seq<char>, TargetModel>,
    id: Seq<char>,
    r1: Result<TargetModel, ErrorModel>,
    r2: Result<TargetModel, ErrorModel>,
)
    requires
        r1 == target_get_outcome(m, id),
        r2 == target_get_outcome(m, id),
    ensures
        r1 == r2,
{
}

/// Create then get: once a create has stored `t` under `t.id`, a read of
/// `t.id` returns exactly `t`.
pub proof fn created_then_readable(m: Map<Seq<char>, TargetModel>, t: TargetModel)
    ensures
        target_get_outcome(m.insert(t.id, t), t.id) == Ok::<TargetModel, ErrorModel>(t),
{
}

/// Delete then get: once a delete has removed `id`, a read of `id` fails
/// with `NotFound`.
pub proof fn deleted_then_gone(m: Map<Seq<char>, TargetModel>, id: Seq<char>)
    ensures
        target_get_outcome(m.remove(id), id) == Err::<TargetModel, ErrorModel>(
            ErrorModel::NotFound,
        ),
{
}

/// One registry instance for the target object kind.
///
/// Well-formedness ties the index to the store: the index is exactly the
/// store's contents restricted to structurally valid targets, so the two
/// never diverge outside a single write operation, and a failed store
/// write leaves the index untouched.
pub struct TargetRegistry<S: KvStore<Target>> {
    store: S,
    index: IndexMap<Target>,
}

impl<S: KvStore<Target>> TargetRegistry<S> {
    /// The in-memory index as a mapping from id to target.
    pub closed spec fn index_map(&self) -> Map<Seq<char>, TargetModel> {
        self.index@
    }

    /// The durable store's contents.
    pub closed spec fn store_map(&self) -> Map<Seq<char>, TargetModel> {
        self.store.contents()
    }

    /// Whether the durable store may currently reject writes.
    pub closed spec fn store_fallible(&self) -> bool {
        self.store.fallible()
    }

    /// The index entries in insertion order.
    pub closed spec fn order(&self) -> Seq<(Seq<char>, TargetModel)> {
        self.index.entry_seq()
    }

    /// The registry invariant: both halves well-formed, and the index is
    /// the store restricted to valid targets.
    pub closed spec fn wf(&self) -> bool {
        &&& self.index.wf()
        &&& self.store.wf()
        &&& self.index_map() == restrict_map(self.store_map(), |t: TargetModel| target_valid(t))
        &&& map_of(self.order()) == self.index_map()
    }

    /// Every indexed target is structurally valid.
    pub proof fn lemma_indexed_valid(&self, id: Seq<char>)
        requires
            self.wf(),
            self.index_map().contains_key(id),
        ensures
            target_valid(self.index_map()[id]),
    {
    }

    /// Build a registry over `store`, hydrating the index from its
    /// contents. Malformed entries (an empty name) are skipped, and their
    /// ids handed back so the caller can log them; they do not fail the
    /// hydration. Fails with `StorageFailure` only if the store cannot be
    /// read.
    pub fn hydrate(store: S) -> (r: Result<(Self, Vec<String>), RegistryError>)
        requires
            store.wf(),
        ensures
            match r {
                Ok((reg, skipped)) => {
                    &&& reg.wf()
                    &&& reg.store_map() == store.contents()
                    &&& reg.store_fallible() == store.fallible()
                    &&& forall|j: int|
                        0 <= j < skipped@.len() ==> store.contents().contains_key(
                            #[trigger] skipped@[j]@,
                        ) && !target_valid(store.contents()[skipped@[j]@])
                    &&& forall|k: Seq<char>|
                        store.contents().contains_key(k) && !target_valid(
                            #[trigger] store.contents()[k],
                        ) ==> exists|j: int| 0 <= j < skipped@.len() && #[trigger] skipped@[j]@
                            == k
                },
                Err(e) => e@ == ErrorModel::StorageFailure && store.fallible(),
            },
    {
        let entries = match store.load_all() {
            Err(_) => {
                return Err(RegistryError::StorageFailure);
            },
            Ok(es) => es,
        };
        let ghost evs = entry_views(entries@);
        let mut index: IndexMap<Target> = IndexMap::new();
        let mut skipped: Vec<String> = Vec::new();
        let n = entries.len();
        let mut i: usize = 0;
        proof {
            assert(evs.take(0) =~= Seq::<(Seq<char>, TargetModel)>::empty());
            assert(map_of(evs.take(0)) =~= Map::<Seq<char>, TargetModel>::empty());
            lemma_restrict_empty(|t: TargetModel| target_valid(t));
        }
        while i < n
            invariant
                n == entries@.len(),
                i <= n,
                evs == entry_views(entries@),
                keys_distinct(evs),
                index.wf(),
                index@ == restrict_map(map_of(evs.take(i as int)), |t: TargetModel| target_valid(t)),
                forall|j: int|
                    0 <= j < skipped@.len() ==> has_key(evs, #[trigger] skipped@[j]@)
                        && !target_valid(value_of(evs, skipped@[j]@)),
                forall|k: Seq<char>|
                    map_of(evs.take(i as int)).contains_key(k) && !target_valid(
                        #[trigger] map_of(evs.take(i as int))[k],
                    ) ==> exists|j: int| 0 <= j < skipped@.len() && #[trigger] skipped@[j]@ == k,
            decreases n - i,
        {
            let ghost om = map_of(evs.take(i as int));
            let ghost nm = map_of(evs.take(i as int + 1));
            let ghost pre_skipped = skipped@;
            proof {
                lemma_map_of_take_step(evs, i as int);
            }
            let key = entries[i].0.clone();
            if entries[i].1.is_valid() {
                let v = entries[i].1.dup();
                proof {
                    lemma_restrict_insert(
                        om,
                        |t: TargetModel| target_valid(t),
                        evs[i as int].0,
                        evs[i as int].1,
                    );
                    assert forall|k: Seq<char>|
                        nm.contains_key(k) && !target_valid(#[trigger] nm[k]) implies exists|
                        j: int,
                    | 0 <= j < skipped@.len() && #[trigger] skipped@[j]@ == k by {
                        assert(k != evs[i as int].0);
                        assert(om.contains_key(k) && om[k] == nm[k]);
                    }
                }
                index.insert(key, v);
            } else {
                proof {
                    lemma_key_at(evs, evs[i as int].0, i as int);
                    if om.contains_key(evs[i as int].0) {
                        let j = key_index(evs.take(i as int), evs[i as int].0);
                        assert(evs[j].0 == evs[i as int].0);
                    }
                    lemma_restrict_insert_skipped(
                        om,
                        |t: TargetModel| target_valid(t),
                        evs[i as int].0,
                        evs[i as int].1,
                    );
                }
                skipped.push(key);
                proof {
                    assert forall|k: Seq<char>|
                        nm.contains_key(k) && !target_valid(#[trigger] nm[k]) implies exists|
                        j: int,
                    | 0 <= j < skipped@.len() && #[trigger] skipped@[j]@ == k by {
                        if k == evs[i as int].0 {
                            assert(skipped@[skipped@.len() - 1]@ == k);
                        } else {
                            assert(om.contains_key(k) && om[k] == nm[k]);
                            let j = choose|j: int|
                                0 <= j < pre_skipped.len() && #[trigger] pre_skipped[j]@ == k;
                            assert(skipped@[j]@ == k);
                        }
                    }
                }
            }
            i += 1;
        }
        proof {
            lemma_take_all(evs);
        }
        let reg = TargetRegistry { store, index };
        Ok((reg, skipped))
    }

    /// How many targets are configured.
    pub fn len(&self) -> (r: usize)
        ensures
            r == self.order().len(),
    {
        self.index.len()
    }

    /// Read the target stored under `id`. Side-effect-free: fails with
    /// `NotFound` exactly when the index does not hold `id`.
    pub fn get(&self, id: &String) -> (r: Result<Target, RegistryError>)
        requires
            self.wf(),
        ensures
            outcome(r) == target_get_outcome(self.index_map(), id@),
    {
        match self.index.get(id) {
            Some(t) => Ok(t.dup()),
            None => Err(RegistryError::NotFound),
        }
    }

    /// A snapshot of every configured target, in insertion order of the
    /// index. Side-effect-free.
    pub fn list(&self) -> (r: Vec<Target>)
        requires
            self.wf(),
        ensures
            r@.len() == self.order().len(),
            forall|i: int| 0 <= i < r@.len() ==> r@[i]@ == self.order()[i].1,
    {
        self.index.values()
    }

    /// Create a target: validate that a name is present, assign a freshly
    /// generated identifier, persist, and only then mirror the new entry
    /// into the index. The stored target is returned.
    ///
    /// Structural validation fails before any side effect. A failed store
    /// write leaves both the store and the index unchanged.
    pub fn create(&mut self, payload: Target) -> (r: Result<Target, RegistryError>)
        requires
            old(self).wf(),
        ensures
            final(self).wf(),
            final(self).store_fallible() == old(self).store_fallible(),
            !target_valid(payload@) <==> (r matches Err(e) && e@
                == ErrorModel::InvalidConfiguration),
            r is Err ==> final(self).index_map() == old(self).index_map() && final(self).store_map() == old(self).store_map(),
            r matches Err(e) ==> (e@ == ErrorModel::InvalidConfiguration || e@
                == ErrorModel::StorageFailure),
            (r matches Err(e) && e@ == ErrorModel::StorageFailure) ==> target_valid(payload@)
                && old(self).store_fallible(),
            target_valid(payload@) && !old(self).store_fallible() ==> r is Ok,
            r matches Ok(t) ==> {
                &&& t@.name == payload@.name
                &&& t@.kind == payload@.kind
                &&& t@.config == payload@.config
                &&& t@.id.len() == 26
                &&& target_valid(t@)
                &&& final(self).index_map() == old(self).index_map().insert(t@.id, t@)
                &&& final(self).store_map() == old(self).store_map().insert(t@.id, t@)
            },
    {
        if !payload.is_valid() {
            return Err(RegistryError::InvalidConfiguration);
        }
        let mut obj = payload;
        obj.id = idgen::generate_id();
        let key = obj.id.clone();
        match self.store.put(&key, obj.dup()) {
            Err(_) => Err(RegistryError::StorageFailure),
            Ok(()) => {
                proof {
                    lemma_restrict_insert(
                        old(self).store_map(),
                        |t: TargetModel| target_valid(t),
                        obj@.id,
                        obj@,
                    );
                }
                self.index.insert(key, obj.dup());
                Ok(obj)
            },
        }
    }

    /// Replace the target stored under `id` with `payload`, keeping the
    /// identifier fixed by the path. The stored `name` is immutable: an
    /// update whose payload carries a different name is rejected with
    /// `InvalidModification` and changes nothing. The persisted target is
    /// returned; a failed store write leaves both halves at their
    /// pre-update values.
    pub fn update(&mut self, id: &String, payload: Target) -> (r: Result<Target, RegistryError>)
        requires
            old(self).wf(),
        ensures
            final(self).wf(),
            final(self).store_fallible() == old(self).store_fallible(),
            !old(self).index_map().contains_key(id@) <==> (r matches Err(e) && e@
                == ErrorModel::NotFound),
            (old(self).index_map().contains_key(id@) && payload@.name != old(self).index_map()[id@].name) <==> (r matches Err(e) && e@ == ErrorModel::InvalidModification),
            r is Err ==> final(self).index_map() == old(self).index_map() && final(self).store_map() == old(self).store_map(),
            r matches Err(e) ==> (e@ == ErrorModel::NotFound || e@
                == ErrorModel::InvalidModification || e@ == ErrorModel::StorageFailure),
            (r matches Err(e) && e@ == ErrorModel::StorageFailure) ==> old(self).index_map().contains_key(id@) && payload@.name == old(self).index_map()[id@].name
                && old(self).store_fallible(),
            old(self).index_map().contains_key(id@) && payload@.name == old(self).index_map()[id@].name && !old(self).store_fallible() ==> r is Ok,
            r matches Ok(t) ==> {
                &&& old(self).index_map().contains_key(id@)
                &&& t@.id == id@
                &&& t@.name == payload@.name
                &&& t@.kind == payload@.kind
                &&& t@.config == payload@.config
                &&& final(self).index_map() == old(self).index_map().insert(id@, t@)
                &&& final(self).store_map() == old(self).store_map().insert(id@, t@)
            },
    {
        let name_unchanged = match self.index.get(id) {
            None => {
                return Err(RegistryError::NotFound);
            },
            Some(existing) => existing.name == payload.name,
        };
        if !name_unchanged {
            return Err(RegistryError::InvalidModification);
        }
        proof {
            self.lemma_indexed_valid(id@);
        }
        let mut obj = payload;
        obj.id = id.clone();
        match self.store.put(id, obj.dup()) {
            Err(_) => Err(RegistryError::StorageFailure),
            Ok(()) => {
                proof {
                    lemma_restrict_insert(
                        old(self).store_map(),
                        |t: TargetModel| target_valid(t),
                        obj@.id,
                        obj@,
                    );
                }
                self.index.insert(id.clone(), obj.dup());
                Ok(obj)
            },
        }
    }

    /// Remove the target stored under `id`, deleting from the durable
    /// store first and from the index only once the store write has
    /// succeeded. Returns the deleted value; fails with `NotFound` exactly
    /// when `id` is absent.
    pub fn delete(&mut self, id: &String) -> (r: Result<Target, RegistryError>)
        requires
            old(self).wf(),
        ensures
            final(self).wf(),
            final(self).store_fallible() == old(self).store_fallible(),
            !old(self).index_map().contains_key(id@) <==> (r matches Err(e) && e@
                == ErrorModel::NotFound),
            r is Err ==> final(self).index_map() == old(self).index_map() && final(self).store_map() == old(self).store_map(),
            r matches Err(e) ==> (e@ == ErrorModel::NotFound || e@ == ErrorModel::StorageFailure),
            (r matches Err(e) && e@ == ErrorModel::StorageFailure) ==> old(self).index_map().contains_key(id@) && old(self).store_fallible(),
            old(self).index_map().contains_key(id@) && !old(self).store_fallible() ==> r is Ok,
            r matches Ok(t) ==> {
                &&& old(self).index_map().contains_key(id@)
                &&& t@ == old(self).index_map()[id@]
                &&& final(self).index_map() == old(self).index_map().remove(id@)
                &&& final(self).store_map() == old(self).store_map().remove(id@)
            },
    {
        if self.index.get(id).is_none() {
            return Err(RegistryError::NotFound);
        }
        match self.store.del(id) {
            Err(_) => Err(RegistryError::StorageFailure),
            Ok(()) => {
                proof {
                    lemma_restrict_remove(
                        old(self).store_map(),
                        |t: TargetModel| target_valid(t),
                        id@,
                    );
                }
                match self.index.remove(id) {
                    Some(t) => Ok(t),
                    None => {
                        proof {
                            assert(false);
                        }
                        Err(RegistryError::NotFound)
                    },
                }
            },
        }
    }
}

} // verus!
