//! The Correlation Registry: cross-stream correlations behind atomic
//! create/read/update/delete, mirrored between the durable store and the
//! in-memory index, with every referenced stream authorized against the
//! permission gate.

use vstd::prelude::*;
use crate::correlation::{correlation_valid, Correlation, CorrelationModel, TableConfigModel};
use crate::errors::{outcome, ErrorModel, RegistryError};
use crate::gate::PermissionGate;
use crate::index::{entry_views, has_key, key_index, keys_distinct, lemma_key_at,
    lemma_map_of_take_step, lemma_take_all,
    map_of, value_of, Dup, IndexMap};
use crate::store::{lemma_restrict_empty, lemma_restrict_insert, lemma_restrict_insert_skipped,
    lemma_restrict_remove, restrict_map, KvStore};

verus! {

/// Whether `session` may access every stream the correlation references.
pub open spec fn all_allowed<G: PermissionGate>(
    g: &G,
    session: Seq<char>,
    c: CorrelationModel,
) -> bool {
    forall|i: int|
        0 <= i < c.table_configs.len() ==> g.allows(
            session,
            #[trigger] c.table_configs[i].table_name,
        )
}

/// The first index whose stream the permission gate denies: the one the registry
/// names when it fails with `Unauthorized`.
pub open spec fn first_denied<G: PermissionGate>(
    g: &G,
    session: Seq<char>,
    tcs: Seq<TableConfigModel>,
) -> int {
    choose|i: int|
        0 <= i < tcs.len() && !g.allows(session, tcs[i].table_name) && (forall|j: int|
            0 <= j < i ==> g.allows(session, #[trigger] tcs[j].table_name))
}

/// An index that is denied, with everything before it allowed, is the
/// `first_denied` index.
pub proof fn lemma_first_denied_is<G: PermissionGate>(
    g: &G,
    session: Seq<char>,
    tcs: Seq<TableConfigModel>,
    i: int,
)
    requires
        0 <= i < tcs.len(),
        !g.allows(session, tcs[i].table_name),
        forall|j: int| 0 <= j < i ==> g.allows(session, #[trigger] tcs[j].table_name),
    ensures
        first_denied(g, session, tcs) == i,
{
    let k = first_denied(g, session, tcs);
    assert(0 <= k < tcs.len() && !g.allows(session, tcs[k].table_name) && (forall|j: int|
        0 <= j < k ==> g.allows(session, #[trigger] tcs[j].table_name)));
}

/// What a permission-checked read of `id` against the index mapping `m`
/// returns for the given gate and session.
pub open spec fn correlation_get_outcome<G: PermissionGate>(
    m: Map<Seq<char>, CorrelationModel>,
    id: Seq<char>,
    g: &G,
    session: Seq<char>,
) -> Result<CorrelationModel, ErrorModel> {
    if !m.contains_key(id) {
        Err(ErrorModel::NotFound)
    } else if !all_allowed(g, session, m[id]) {
        Err(
            ErrorModel::Unauthorized(
                m[id].table_configs[first_denied(g, session, m[id].table_configs)].table_name,
            ),
        )
    } else {
        Ok(m[id])
    }
}

/// Idempotent read: two permission-checked reads of the same id with no
/// intervening write return identical values — the outcome of a read is a
/// function of the registry state, the permission gate, the session and the id alone.
pub proof fn reads_idempotent<G: PermissionGate>(
    m: Map<Seq<char>, CorrelationModel>,
    id: Seq<char>,
    g: &G,
    session: Seq<char>,
    r1: Result<CorrelationModel, ErrorModel>,
    r2: Result<CorrelationModel, ErrorModel>,
)
    requires
        r1 == correlation_get_outcome(m, id, g, session),
        r2 == correlation_get_outcome(m, id, g, session),
    ensures
        r1 == r2,
{
}

/// Create then get: once a create has stored `c` under `c.id`, a read of
/// `c.id` by a session the permission gate allows on every referenced stream returns
/// exactly `c`.
pub proof fn created_then_readable<G: PermissionGate>(
    m: Map<Seq<char>, CorrelationModel>,
    c: CorrelationModel,
    g: &G,
    session: Seq<char>,
)
    requires
        all_allowed(g, session, c),
    ensures
        correlation_get_outcome(m.insert(c.id, c), c.id, g, session) == Ok::<
            CorrelationModel,
            ErrorModel,
        >(c),
{
}

/// Delete then get: once a delete has removed `id`, a read of `id` fails
/// with `NotFound`, whatever the session.
pub proof fn deleted_then_gone<G: PermissionGate>(
    m: Map<Seq<char>, CorrelationModel>,
    id: Seq<char>,
    g: &G,
    session: Seq<char>,
)
    ensures
        correlation_get_outcome(m.remove(id), id, g, session) == Err::<
            CorrelationModel,
            ErrorModel,
        >(ErrorModel::NotFound),
{
}

/// The correlation a create or update persists: the payload with the
/// server-derived owner in place of whatever the caller sent.
pub open spec fn with_owner(c: CorrelationModel, user_id: Seq<char>) -> CorrelationModel {
    CorrelationModel { user_id, ..c }
}

/// Authorize every stream `c` references for `session`, in order,
/// consulting the permission gate once per stream and short-circuiting on the first
/// denial, which the error names.
fn authorize_streams<G: PermissionGate>(gate: &G, session: &String, c: &Correlation) -> (r:
    Result<(), RegistryError>)
    ensures
        r is Ok <==> all_allowed(gate, session@, c@),
        r matches Err(e) ==> e@ == ErrorModel::Unauthorized(
            c@.table_configs[first_denied(gate, session@, c@.table_configs)].table_name,
        ),
        r matches Err(e) ==> (e matches RegistryError::Unauthorized(_)),
{
    let n = c.table_configs.len();
    let mut i: usize = 0;
    while i < n
        invariant
            n == c.table_configs@.len(),
            i <= n,
            forall|j: int| 0 <= j < i ==> gate.allows(session@, #[trigger] c@.table_configs[j].table_name),
        decreases n - i,
    {
        if !gate.authorize(session, &c.table_configs[i].table_name) {
            proof {
                assert(c@.table_configs[i as int].table_name == c.table_configs@[i as int].table_name@);
                assert(!gate.allows(session@, c@.table_configs[i as int].table_name));
                assert(!all_allowed(gate, session@, c@));
                lemma_first_denied_is(gate, session@, c@.table_configs, i as int);
            }
            return Err(RegistryError::Unauthorized(c.table_configs[i].table_name.clone()));
        }
        i += 1;
    }
    Ok(())
}

/// One registry instance for the correlation object kind.
///
/// Well-formedness ties the index to the store: the index is exactly the
/// store's contents restricted to structurally valid correlations, so the
/// two never diverge outside a single write operation, and a failed store
/// write leaves the index untouched.
pub struct CorrelationRegistry<S: KvStore<Correlation>> {
    store: S,
    index: IndexMap<Correlation>,
}

impl<S: KvStore<Correlation>> CorrelationRegistry<S> {
    /// The in-memory index as a mapping from id to correlation.
    pub closed spec fn index_map(&self) -> Map<Seq<char>, CorrelationModel> {
        self.index@
    }

    /// The durable store's contents.
    pub closed spec fn store_map(&self) -> Map<Seq<char>, CorrelationModel> {
        self.store.contents()
    }

    /// Whether the durable store may currently reject writes.
    pub closed spec fn store_fallible(&self) -> bool {
        self.store.fallible()
    }

    /// The index entries in insertion order.
    pub closed spec fn order(&self) -> Seq<(Seq<char>, CorrelationModel)> {
        self.index.entry_seq()
    }

    /// The registry invariant: both halves well-formed, and the index is
    /// the store restricted to valid correlations.
    pub closed spec fn wf(&self) -> bool {
        &&& self.index.wf()
        &&& self.store.wf()
        &&& self.index_map() == restrict_map(
            self.store_map(),
            |c: CorrelationModel| correlation_valid(c),
        )
        &&& map_of(self.order()) == self.index_map()
    }

    /// Build a registry over `store`, hydrating the index from its
    /// contents. Malformed entries (no referenced stream) are skipped, and
    /// their ids handed back so the caller can log them; they do not fail
    /// the hydration. Fails with `StorageFailure` only if the store cannot
    /// be read.
    pub fn hydrate(store: S) -> (r: Result<(Self, Vec<String>), RegistryError>)
        requires
            store.wf(),
        ensures
            match r {
                Ok((reg, skipped)) => {
                    &&& reg.wf()
                    &&& reg.store_map() == store.contents()
                    &&& reg.store_fallible() == store.fallible()
                    &&& forall|j: int|
                        0 <= j < skipped@.len() ==> store.contents().contains_key(
                            #[trigger] skipped@[j]@,
                        ) && !correlation_valid(store.contents()[skipped@[j]@])
                    &&& forall|k: Seq<char>|
                        store.contents().contains_key(k) && !correlation_valid(
                            #[trigger] store.contents()[k],
                        ) ==> exists|j: int| 0 <= j < skipped@.len() && #[trigger] skipped@[j]@
                            == k
                },
                Err(e) => e@ == ErrorModel::StorageFailure && store.fallible(),
            },
    {
        let entries = match store.load_all() {
            Err(_) => {
                return Err(RegistryError::StorageFailure);
            },
            Ok(es) => es,
        };
        let ghost evs = entry_views(entries@);
        let mut index: IndexMap<Correlation> = IndexMap::new();
        let mut skipped: Vec<String> = Vec::new();
        let n = entries.len();
        let mut i: usize = 0;
        proof {
            assert(evs.take(0) =~= Seq::<(Seq<char>, CorrelationModel)>::empty());
            assert(map_of(evs.take(0)) =~= Map::<Seq<char>, CorrelationModel>::empty());
            lemma_restrict_empty(|c: CorrelationModel| correlation_valid(c));
        }
        while i < n
            invariant
                n == entries@.len(),
                i <= n,
                evs == entry_views(entries@),
                keys_distinct(evs),
                index.wf(),
                index@ == restrict_map(
                    map_of(evs.take(i as int)),
                    |c: CorrelationModel| correlation_valid(c),
                ),
                forall|j: int|
                    0 <= j < skipped@.len() ==> has_key(evs, #[trigger] skipped@[j]@)
                        && !correlation_valid(value_of(evs, skipped@[j]@)),
                forall|k: Seq<char>|
                    map_of(evs.take(i as int)).contains_key(k) && !correlation_valid(
                        #[trigger] map_of(evs.take(i as int))[k],
                    ) ==> exists|j: int| 0 <= j < skipped@.len() && #[trigger] skipped@[j]@ == k,
            decreases n - i,
        {
            let ghost om = map_of(evs.take(i as int));
            let ghost nm = map_of(evs.take(i as int + 1));
            let ghost pre_skipped = skipped@;
            proof {
                lemma_map_of_take_step(evs, i as int);
            }
            let key = entries[i].0.clone();
            if entries[i].1.is_valid() {
                let v = entries[i].1.dup();
                proof {
                    lemma_restrict_insert(
                        om,
                        |c: CorrelationModel| correlation_valid(c),
                        evs[i as int].0,
                        evs[i as int].1,
                    );
                    assert forall|k: Seq<char>|
                        nm.contains_key(k) && !correlation_valid(#[trigger] nm[k]) implies exists|
                        j: int,
                    | 0 <= j < skipped@.len() && #[trigger] skipped@[j]@ == k by {
                        assert(k != evs[i as int].0);
                        assert(om.contains_key(k) && om[k] == nm[k]);
                    }
                }
                index.insert(key, v);
            } else {
                proof {
                    lemma_key_at(evs, evs[i as int].0, i as int);
                    if om.contains_key(evs[i as int].0) {
                        let j = key_index(evs.take(i as int), evs[i as int].0);
                        assert(evs[j].0 == evs[i as int].0);
                    }
                    lemma_restrict_insert_skipped(
                        om,
                        |c: CorrelationModel| correlation_valid(c),
                        evs[i as int].0,
                        evs[i as int].1,
                    );
                }
                skipped.push(key);
                proof {
                    assert forall|k: Seq<char>|
                        nm.contains_key(k) && !correlation_valid(#[trigger] nm[k]) implies exists|
                        j: int,
                    | 0 <= j < skipped@.len() && #[trigger] skipped@[j]@ == k by {
                        if k == evs[i as int].0 {
                            assert(skipped@[skipped@.len() - 1]@ == k);
                        } else {
                            assert(om.contains_key(k) && om[k] == nm[k]);
                            let j = choose|j: int|
                                0 <= j < pre_skipped.len() && #[trigger] pre_skipped[j]@ == k;
                            assert(skipped@[j]@ == k);
                        }
                    }
                }
            }
            i += 1;
        }
        proof {
            lemma_take_all(evs);
        }
        let reg = CorrelationRegistry { store, index };
        Ok((reg, skipped))
    }

    /// How many correlations are configured.
    pub fn len(&self) -> (r: usize)
        ensures
            r == self.order().len(),
    {
        self.index.len()
    }

    /// Read the correlation stored under `id`, authorizing every stream it
    /// references for the acting session. Side-effect-free: fails with
    /// `NotFound` exactly when the index does not hold `id`, and with
    /// `Unauthorized` naming the first denied stream exactly when the permission gate
    /// denies one.
    pub fn get<G: PermissionGate>(&self, id: &String, session: &String, gate: &G) -> (r: Result<
        Correlation,
        RegistryError,
    >)
        requires
            self.wf(),
        ensures
            outcome(r) == correlation_get_outcome(self.index_map(), id@, gate, session@),
    {
        match self.index.get(id) {
            None => Err(RegistryError::NotFound),
            Some(c) => {
                match authorize_streams(gate, session, c) {
                    Err(e) => Err(e),
                    Ok(()) => Ok(c.dup()),
                }
            },
        }
    }

    /// A snapshot of every configured correlation, in insertion order of
    /// the index. Side-effect-free.
    ///
    /// Deliberate asymmetry with `get`: listing does not re-check
    /// per-stream permissions, so a caller may see here a correlation
    /// whose streams `get` would refuse it.
    pub fn list(&self) -> (r: Vec<Correlation>)
        requires
            self.wf(),
        ensures
            r@.len() == self.order().len(),
            forall|i: int| 0 <= i < r@.len() ==> r@[i]@ == self.order()[i].1,
    {
        self.index.values()
    }

    /// Create a correlation under the caller-supplied id: validate that at
    /// least one stream is referenced, authorize every referenced stream,
    /// set the server-derived owner, persist, and only then mirror the new
    /// entry into the index. The stored correlation is returned.
    ///
    /// Validation and authorization fail before any side effect; a failed
    /// store write leaves both the store and the index unchanged.
    pub fn create<G: PermissionGate>(
        &mut self,
        payload: Correlation,
        user_id: String,
        session: &String,
        gate: &G,
    ) -> (r: Result<Correlation, RegistryError>)
        requires
            old(self).wf(),
        ensures
            final(self).wf(),
            final(self).store_fallible() == old(self).store_fallible(),
            !correlation_valid(payload@) <==> (r matches Err(e) && e@
                == ErrorModel::InvalidConfiguration),
            (correlation_valid(payload@) && !all_allowed(gate, session@, payload@)) <==> (
            r matches Err(e) && e matches RegistryError::Unauthorized(_)),
            r matches Err(e) ==> ((e matches RegistryError::Unauthorized(_)) ==> e@
                == ErrorModel::Unauthorized(
                payload@.table_configs[first_denied(gate, session@, payload@.table_configs)].table_name,
            )),
            r is Err ==> final(self).index_map() == old(self).index_map() && final(
                self).store_map() == old(self).store_map(),
            r matches Err(e) ==> (e@ == ErrorModel::InvalidConfiguration || (
            e matches RegistryError::Unauthorized(_)) || e@ == ErrorModel::StorageFailure),
            (r matches Err(e) && e@ == ErrorModel::StorageFailure) ==> correlation_valid(payload@)
                && all_allowed(gate, session@, payload@) && old(self).store_fallible(),
            correlation_valid(payload@) && all_allowed(gate, session@, payload@) && !old(
                self).store_fallible() ==> r is Ok,
            r matches Ok(c) ==> {
                &&& c@ == with_owner(payload@, user_id@)
                &&& final(self).index_map() == old(self).index_map().insert(payload@.id, c@)
                &&& final(self).store_map() == old(self).store_map().insert(payload@.id, c@)
            },
    {
        if !payload.is_valid() {
            return Err(RegistryError::InvalidConfiguration);
        }
        match authorize_streams(gate, session, &payload) {
            Err(e) => {
                return Err(e);
            },
            Ok(()) => {},
        }
        let mut obj = payload;
        obj.user_id = user_id;
        let key = obj.id.clone();
        match self.store.put(&key, obj.dup()) {
            Err(_) => Err(RegistryError::StorageFailure),
            Ok(()) => {
                proof {
                    lemma_restrict_insert(
                        old(self).store_map(),
                        |c: CorrelationModel| correlation_valid(c),
                        obj@.id,
                        obj@,
                    );
                }
                self.index.insert(key, obj.dup());
                Ok(obj)
            },
        }
    }

    /// Replace the correlation stored under `id` with `payload`, keeping
    /// the identifier fixed by the path and re-deriving the server-owned
    /// `user_id`. The payload is validated and every referenced stream
    /// authorized before anything is persisted; a failed store write
    /// leaves both halves at their pre-update values. The persisted
    /// correlation is returned.
    pub fn update<G: PermissionGate>(
        &mut self,
        id: &String,
        payload: Correlation,
        user_id: String,
        session: &String,
        gate: &G,
    ) -> (r: Result<Correlation, RegistryError>)
        requires
            old(self).wf(),
        ensures
            final(self).wf(),
            final(self).store_fallible() == old(self).store_fallible(),
            !old(self).index_map().contains_key(id@) <==> (r matches Err(e) && e@
                == ErrorModel::NotFound),
            (old(self).index_map().contains_key(id@) && !correlation_valid(payload@)) <==> (
            r matches Err(e) && e@ == ErrorModel::InvalidConfiguration),
            (old(self).index_map().contains_key(id@) && correlation_valid(payload@)
                && !all_allowed(gate, session@, payload@)) <==> (r matches Err(e) && (
            e matches RegistryError::Unauthorized(_))),
            r matches Err(e) ==> ((e matches RegistryError::Unauthorized(_)) ==> e@
                == ErrorModel::Unauthorized(
                payload@.table_configs[first_denied(gate, session@, payload@.table_configs)].table_name,
            )),
            r is Err ==> final(self).index_map() == old(self).index_map() && final(
                self).store_map() == old(self).store_map(),
            r matches Err(e) ==> (e@ == ErrorModel::NotFound || e@
                == ErrorModel::InvalidConfiguration || (
            e matches RegistryError::Unauthorized(_)) || e@ == ErrorModel::StorageFailure),
            (r matches Err(e) && e@ == ErrorModel::StorageFailure) ==> old(
                self).index_map().contains_key(id@) && correlation_valid(payload@) && all_allowed(
                gate,
                session@,
                payload@,
            ) && old(self).store_fallible(),
            old(self).index_map().contains_key(id@) && correlation_valid(payload@) && all_allowed(
                gate,
                session@,
                payload@,
            ) && !old(self).store_fallible() ==> r is Ok,
            r matches Ok(c) ==> {
                &&& old(self).index_map().contains_key(id@)
                &&& c@ == CorrelationModel {
                    id: id@,
                    user_id: user_id@,
                    table_configs: payload@.table_configs,
                }
                &&& final(self).index_map() == old(self).index_map().insert(id@, c@)
                &&& final(self).store_map() == old(self).store_map().insert(id@, c@)
            },
    {
        if self.index.get(id).is_none() {
            return Err(RegistryError::NotFound);
        }
        if !payload.is_valid() {
            return Err(RegistryError::InvalidConfiguration);
        }
        match authorize_streams(gate, session, &payload) {
            Err(e) => {
                return Err(e);
            },
            Ok(()) => {},
        }
        let mut obj = payload;
        obj.id = id.clone();
        obj.user_id = user_id;
        match self.store.put(id, obj.dup()) {
            Err(_) => Err(RegistryError::StorageFailure),
            Ok(()) => {
                proof {
                    lemma_restrict_insert(
                        old(self).store_map(),
                        |c: CorrelationModel| correlation_valid(c),
                        obj@.id,
                        obj@,
                    );
                }
                self.index.insert(id.clone(), obj.dup());
                Ok(obj)
            },
        }
    }

    /// Remove the correlation stored under `id`, scoped to its owner:
    /// an id that is absent, or whose stored correlation belongs to a
    /// different user, fails with `NotFound`. Deletion goes to the durable
    /// store first and to the index only once the store write has
    /// succeeded. Returns the deleted value.
    pub fn delete(&mut self, id: &String, user_id: &String) -> (r: Result<
        Correlation,
        RegistryError,
    >)
        requires
            old(self).wf(),
        ensures
            final(self).wf(),
            final(self).store_fallible() == old(self).store_fallible(),
            !(old(self).index_map().contains_key(id@) && old(self).index_map()[id@].user_id
                == user_id@) <==> (r matches Err(e) && e@ == ErrorModel::NotFound),
            r is Err ==> final(self).index_map() == old(self).index_map() && final(
                self).store_map() == old(self).store_map(),
            r matches Err(e) ==> (e@ == ErrorModel::NotFound || e@ == ErrorModel::StorageFailure),
            (r matches Err(e) && e@ == ErrorModel::StorageFailure) ==> old(
                self).index_map().contains_key(id@) && old(self).index_map()[id@].user_id
                == user_id@ && old(self).store_fallible(),
            old(self).index_map().contains_key(id@) && old(self).index_map()[id@].user_id
                == user_id@ && !old(self).store_fallible() ==> r is Ok,
            r matches Ok(c) ==> {
                &&& old(self).index_map().contains_key(id@)
                &&& c@ == old(self).index_map()[id@]
                &&& c@.user_id == user_id@
                &&& final(self).index_map() == old(self).index_map().remove(id@)
                &&& final(self).store_map() == old(self).store_map().remove(id@)
            },
    {
        let owned = match self.index.get(id) {
            None => false,
            Some(c) => c.user_id == *user_id,
        };
        if !owned {
            return Err(RegistryError::NotFound);
        }
        match self.store.del(id) {
            Err(_) => Err(RegistryError::StorageFailure),
            Ok(()) => {
                proof {
                    lemma_restrict_remove(
                        old(self).store_map(),
                        |c: CorrelationModel| correlation_valid(c),
                        id@,
                    );
                }
                match self.index.remove(id) {
                    Some(c) => Ok(c),
                    None => {
                        proof {
                            assert(false);
                        }
                        Err(RegistryError::NotFound)
                    },
                }
            },
        }
    }
}

} // verus!
