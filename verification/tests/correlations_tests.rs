use config_registry::correlation::{Correlation, TableConfig};
use config_registry::correlations::CorrelationRegistry;
use config_registry::errors::RegistryError;
use config_registry::gate::StreamAcl;
use config_registry::store::{KvStore, MemStore};

fn table(name: &str) -> TableConfig {
    TableConfig { table_name: name.to_owned(), join_fields: vec!["id".to_owned()] }
}

fn correlation(id: &str, tables: &[&str]) -> Correlation {
    Correlation {
        id: id.to_owned(),
        user_id: String::new(),
        table_configs: tables.iter().map(|t| table(t)).collect(),
    }
}

fn fresh_registry() -> CorrelationRegistry<MemStore<Correlation>> {
    let store: MemStore<Correlation> = MemStore::new();
    let (reg, skipped) =
        CorrelationRegistry::hydrate(store).expect("hydrating an empty store succeeds");
    assert!(skipped.is_empty());
    reg
}

fn gate_for(session: &str, streams: &[&str]) -> StreamAcl {
    let mut gate = StreamAcl::new();
    for s in streams {
        gate.grant(session.to_owned(), (*s).to_owned());
    }
    gate
}

#[test]
fn create_sets_server_derived_owner() {
    let mut reg = fresh_registry();
    let gate = gate_for("alice", &["events"]);
    let session = "alice".to_owned();
    let mut payload = correlation("corr-1", &["events"]);
    payload.user_id = "caller-supplied".to_owned();
    let created = reg
        .create(payload, "hash-a".to_owned(), &session, &gate)
        .expect("authorized create succeeds");
    assert_eq!(created.id, "corr-1");
    assert_eq!(created.user_id, "hash-a");
    assert_eq!(created.table_configs.len(), 1);
    assert_eq!(created.table_configs[0].table_name, "events");
}

#[test]
fn create_without_streams_is_invalid() {
    let mut reg = fresh_registry();
    let gate = gate_for("alice", &["events"]);
    let session = "alice".to_owned();
    let err = reg
        .create(correlation("corr-1", &[]), "hash-a".to_owned(), &session, &gate)
        .expect_err("a correlation must reference a stream");
    assert!(matches!(err, RegistryError::InvalidConfiguration));
    assert_eq!(reg.len(), 0);
}

#[test]
fn create_with_denied_stream_is_unauthorized_and_changes_nothing() {
    let mut reg = fresh_registry();
    let gate = gate_for("alice", &["events"]);
    let session = "alice".to_owned();
    let err = reg
        .create(
            correlation("corr-1", &["events", "secrets", "audit"]),
            "hash-a".to_owned(),
            &session,
            &gate,
        )
        .expect_err("a denied stream blocks the create");
    match err {
        RegistryError::Unauthorized(stream) => assert_eq!(stream, "secrets"),
        other => panic!("expected an authorization failure, got {:?}", other.describe()),
    }
    assert_eq!(reg.len(), 0);
}

#[test]
fn correlation_get_after_create_returns_stored_value() {
    let mut reg = fresh_registry();
    let gate = gate_for("alice", &["events", "metrics"]);
    let session = "alice".to_owned();
    let created = reg
        .create(correlation("corr-1", &["events", "metrics"]), "hash-a".to_owned(), &session, &gate)
        .expect("create succeeds");
    let looked = reg.get(&created.id, &session, &gate).expect("readable");
    assert_eq!(looked.id, "corr-1");
    assert_eq!(looked.user_id, "hash-a");
    assert_eq!(looked.table_configs.len(), 2);
    assert_eq!(looked.table_configs[1].table_name, "metrics");
}

#[test]
fn correlation_get_twice_returns_identical_values() {
    let mut reg = fresh_registry();
    let gate = gate_for("alice", &["events"]);
    let session = "alice".to_owned();
    let created = reg
        .create(correlation("corr-1", &["events"]), "hash-a".to_owned(), &session, &gate)
        .expect("create succeeds");
    let first = reg.get(&created.id, &session, &gate).expect("readable");
    let second = reg.get(&created.id, &session, &gate).expect("still readable");
    assert_eq!(first.id, second.id);
    assert_eq!(first.user_id, second.user_id);
    assert_eq!(first.table_configs.len(), second.table_configs.len());
}

#[test]
fn get_with_denied_stream_is_unauthorized() {
    let mut reg = fresh_registry();
    let owner_gate = gate_for("alice", &["events", "secrets"]);
    let session = "alice".to_owned();
    let created = reg
        .create(correlation("corr-1", &["events", "secrets"]), "hash-a".to_owned(), &session,
            &owner_gate)
        .expect("create succeeds");
    let narrow_gate = gate_for("bob", &["events"]);
    let other_session = "bob".to_owned();
    let err = reg
        .get(&created.id, &other_session, &narrow_gate)
        .expect_err("a denied stream blocks the read");
    match err {
        RegistryError::Unauthorized(stream) => assert_eq!(stream, "secrets"),
        other => panic!("expected an authorization failure, got {:?}", other.describe()),
    }
}

#[test]
fn correlation_get_unknown_id_is_not_found() {
    let reg = fresh_registry();
    let gate = gate_for("alice", &["events"]);
    let session = "alice".to_owned();
    let err = reg.get(&"missing".to_owned(), &session, &gate).expect_err("nothing stored");
    assert!(matches!(err, RegistryError::NotFound));
}

#[test]
fn list_skips_the_per_stream_check_that_get_enforces() {
    let mut reg = fresh_registry();
    let owner_gate = gate_for("alice", &["secrets"]);
    let session = "alice".to_owned();
    reg.create(correlation("corr-1", &["secrets"]), "hash-a".to_owned(), &session, &owner_gate)
        .expect("create succeeds");
    // A session without access to the referenced stream cannot `get` the
    // correlation, yet still sees it in the listing: the deliberate
    // asymmetry between the two reads.
    let narrow_gate = gate_for("bob", &[]);
    let other_session = "bob".to_owned();
    let err = reg.get(&"corr-1".to_owned(), &other_session, &narrow_gate).expect_err("denied");
    assert!(matches!(err, RegistryError::Unauthorized(_)));
    let listed = reg.list();
    assert_eq!(listed.len(), 1);
    assert_eq!(listed[0].id, "corr-1");
}

#[test]
fn update_replaces_and_rederives_owner() {
    let mut reg = fresh_registry();
    let gate = gate_for("alice", &["events", "metrics"]);
    let session = "alice".to_owned();
    reg.create(correlation("corr-1", &["events"]), "hash-a".to_owned(), &session, &gate)
        .expect("create succeeds");
    let mut replacement = correlation("ignored-id", &["metrics"]);
    replacement.user_id = "caller-supplied".to_owned();
    let updated = reg
        .update(&"corr-1".to_owned(), replacement, "hash-b".to_owned(), &session, &gate)
        .expect("authorized update succeeds");
    assert_eq!(updated.id, "corr-1");
    assert_eq!(updated.user_id, "hash-b");
    assert_eq!(updated.table_configs.len(), 1);
    assert_eq!(updated.table_configs[0].table_name, "metrics");
    let looked = reg.get(&"corr-1".to_owned(), &session, &gate).expect("readable");
    assert_eq!(looked.table_configs[0].table_name, "metrics");
}

#[test]
fn correlation_update_unknown_id_is_not_found() {
    let mut reg = fresh_registry();
    let gate = gate_for("alice", &["events"]);
    let session = "alice".to_owned();
    let err = reg
        .update(&"missing".to_owned(), correlation("x", &["events"]), "hash-a".to_owned(),
            &session, &gate)
        .expect_err("nothing stored");
    assert!(matches!(err, RegistryError::NotFound));
}

#[test]
fn update_with_denied_stream_is_unauthorized_and_changes_nothing() {
    let mut reg = fresh_registry();
    let gate = gate_for("alice", &["events"]);
    let session = "alice".to_owned();
    reg.create(correlation("corr-1", &["events"]), "hash-a".to_owned(), &session, &gate)
        .expect("create succeeds");
    let err = reg
        .update(&"corr-1".to_owned(), correlation("corr-1", &["secrets"]), "hash-a".to_owned(),
            &session, &gate)
        .expect_err("a denied stream blocks the update");
    match err {
        RegistryError::Unauthorized(stream) => assert_eq!(stream, "secrets"),
        other => panic!("expected an authorization failure, got {:?}", other.describe()),
    }
    let looked = reg.get(&"corr-1".to_owned(), &session, &gate).expect("readable");
    assert_eq!(looked.table_configs[0].table_name, "events");
}

#[test]
fn update_without_streams_is_invalid() {
    let mut reg = fresh_registry();
    let gate = gate_for("alice", &["events"]);
    let session = "alice".to_owned();
    reg.create(correlation("corr-1", &["events"]), "hash-a".to_owned(), &session, &gate)
        .expect("create succeeds");
    let err = reg
        .update(&"corr-1".to_owned(), correlation("corr-1", &[]), "hash-a".to_owned(), &session,
            &gate)
        .expect_err("a correlation must reference a stream");
    assert!(matches!(err, RegistryError::InvalidConfiguration));
}

#[test]
fn correlation_failed_update_leaves_previous_value() {
    let mut store: MemStore<Correlation> = MemStore::new();
    let mut seeded = correlation("corr-1", &["events"]);
    seeded.user_id = "hash-a".to_owned();
    store.put(&"corr-1".to_owned(), seeded).expect("seeding succeeds");
    store.set_failing(true);
    let (mut reg, _) = CorrelationRegistry::hydrate(store).expect("hydrate succeeds");
    let gate = gate_for("alice", &["events", "metrics"]);
    let session = "alice".to_owned();
    let err = reg
        .update(&"corr-1".to_owned(), correlation("corr-1", &["metrics"]), "hash-a".to_owned(),
            &session, &gate)
        .expect_err("store rejects the write");
    assert!(matches!(err, RegistryError::StorageFailure));
    let looked = reg.get(&"corr-1".to_owned(), &session, &gate).expect("readable");
    assert_eq!(looked.table_configs[0].table_name, "events");
    assert_eq!(looked.user_id, "hash-a");
}

#[test]
fn delete_is_scoped_to_the_owner() {
    let mut reg = fresh_registry();
    let gate = gate_for("alice", &["events"]);
    let session = "alice".to_owned();
    reg.create(correlation("corr-1", &["events"]), "hash-a".to_owned(), &session, &gate)
        .expect("create succeeds");
    let err = reg
        .delete(&"corr-1".to_owned(), &"hash-other".to_owned())
        .expect_err("another user's delete does not see the correlation");
    assert!(matches!(err, RegistryError::NotFound));
    let deleted = reg.delete(&"corr-1".to_owned(), &"hash-a".to_owned()).expect("owner deletes");
    assert_eq!(deleted.id, "corr-1");
    assert_eq!(deleted.user_id, "hash-a");
    let err = reg.get(&"corr-1".to_owned(), &session, &gate).expect_err("gone");
    assert!(matches!(err, RegistryError::NotFound));
}

#[test]
fn correlation_hydration_skips_malformed_entries() {
    let mut store: MemStore<Correlation> = MemStore::new();
    let mut good = correlation("corr-good", &["events"]);
    good.user_id = "hash-a".to_owned();
    let mut bad = correlation("corr-bad", &[]);
    bad.user_id = "hash-a".to_owned();
    store.put(&"corr-good".to_owned(), good).expect("seeding succeeds");
    store.put(&"corr-bad".to_owned(), bad).expect("seeding succeeds");
    let (reg, skipped) = CorrelationRegistry::hydrate(store).expect("hydrate succeeds");
    assert_eq!(reg.len(), 1);
    assert_eq!(skipped, vec!["corr-bad".to_owned()]);
}
