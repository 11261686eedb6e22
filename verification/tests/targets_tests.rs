use config_registry::errors::RegistryError;
use config_registry::store::{KvStore, MemStore};
use config_registry::target::Target;
use config_registry::targets::TargetRegistry;

fn target(name: &str, kind: &str, config: &str) -> Target {
    Target {
        id: String::new(),
        name: name.to_owned(),
        kind: kind.to_owned(),
        config: config.to_owned(),
    }
}

fn fresh_registry() -> TargetRegistry<MemStore<Target>> {
    let store: MemStore<Target> = MemStore::new();
    let (reg, skipped) = TargetRegistry::hydrate(store).expect("hydrating an empty store succeeds");
    assert!(skipped.is_empty());
    reg
}

#[test]
fn create_assigns_generated_id() {
    let mut reg = fresh_registry();
    let created = reg.create(target("slack-ops", "slack", "#ops")).expect("valid create succeeds");
    assert_eq!(created.name, "slack-ops");
    assert_eq!(created.kind, "slack");
    assert_eq!(created.config, "#ops");
    assert_eq!(created.id.len(), 26);
    assert!(!created.id.is_empty());
}

#[test]
fn generated_ids_differ_between_creates() {
    let mut reg = fresh_registry();
    let first = reg.create(target("a", "webhook", "u1")).expect("create succeeds");
    let second = reg.create(target("b", "webhook", "u2")).expect("create succeeds");
    assert_ne!(first.id, second.id);
}

#[test]
fn create_rejects_missing_name() {
    let mut reg = fresh_registry();
    let err = reg.create(target("", "slack", "#ops")).expect_err("empty name is invalid");
    assert!(matches!(err, RegistryError::InvalidConfiguration));
    assert_eq!(reg.len(), 0);
}

#[test]
fn get_after_create_returns_stored_value() {
    let mut reg = fresh_registry();
    let created = reg.create(target("mail", "email", "ops@example.test")).expect("create succeeds");
    let looked = reg.get(&created.id).expect("created target is readable");
    assert_eq!(looked.id, created.id);
    assert_eq!(looked.name, created.name);
    assert_eq!(looked.kind, created.kind);
    assert_eq!(looked.config, created.config);
}

#[test]
fn get_twice_returns_identical_values() {
    let mut reg = fresh_registry();
    let created = reg.create(target("mail", "email", "ops@example.test")).expect("create succeeds");
    let first = reg.get(&created.id).expect("readable");
    let second = reg.get(&created.id).expect("still readable");
    assert_eq!(first.id, second.id);
    assert_eq!(first.name, second.name);
    assert_eq!(first.kind, second.kind);
    assert_eq!(first.config, second.config);
}

#[test]
fn get_unknown_id_is_not_found() {
    let reg = fresh_registry();
    let err = reg.get(&"01ARZ3NDEKTSV4RRFFQ69G5FAV".to_owned()).expect_err("nothing stored");
    assert!(matches!(err, RegistryError::NotFound));
}

#[test]
fn update_with_changed_name_is_rejected_and_changes_nothing() {
    let mut reg = fresh_registry();
    let created = reg.create(target("slack-ops", "slack", "#ops")).expect("create succeeds");
    let err = reg
        .update(&created.id, target("slack-ops-renamed", "slack", "#ops"))
        .expect_err("name is immutable");
    assert!(matches!(err, RegistryError::InvalidModification));
    let stored = reg.get(&created.id).expect("target still stored");
    assert_eq!(stored.name, "slack-ops");
    assert_eq!(stored.config, "#ops");
}

#[test]
fn update_with_same_name_replaces_config() {
    let mut reg = fresh_registry();
    let created = reg.create(target("slack-ops", "slack", "#ops")).expect("create succeeds");
    let updated = reg
        .update(&created.id, target("slack-ops", "slack", "#ops-2"))
        .expect("same-name update succeeds");
    assert_eq!(updated.id, created.id);
    assert_eq!(updated.config, "#ops-2");
    let stored = reg.get(&created.id).expect("readable");
    assert_eq!(stored.config, "#ops-2");
}

#[test]
fn update_unknown_id_is_not_found() {
    let mut reg = fresh_registry();
    let err = reg
        .update(&"01ARZ3NDEKTSV4RRFFQ69G5FAV".to_owned(), target("x", "slack", "#x"))
        .expect_err("nothing stored");
    assert!(matches!(err, RegistryError::NotFound));
}

#[test]
fn delete_returns_deleted_value_and_get_fails_afterwards() {
    let mut reg = fresh_registry();
    let created = reg.create(target("slack-ops", "slack", "#ops")).expect("create succeeds");
    let deleted = reg.delete(&created.id).expect("existing target is deletable");
    assert_eq!(deleted.id, created.id);
    assert_eq!(deleted.name, created.name);
    assert_eq!(deleted.kind, created.kind);
    assert_eq!(deleted.config, created.config);
    let err = reg.get(&created.id).expect_err("deleted target is gone");
    assert!(matches!(err, RegistryError::NotFound));
}

#[test]
fn delete_unknown_id_is_not_found() {
    let mut reg = fresh_registry();
    let err = reg.delete(&"01ARZ3NDEKTSV4RRFFQ69G5FAV".to_owned()).expect_err("nothing stored");
    assert!(matches!(err, RegistryError::NotFound));
}

#[test]
fn failed_create_is_invisible_to_reads() {
    let mut store: MemStore<Target> = MemStore::new();
    let mut seeded = target("keep", "slack", "#keep");
    seeded.id = "01ARZ3NDEKTSV4RRFFQ69G5FAV".to_owned();
    store.put(&seeded.id.clone(), seeded).expect("seeding the store succeeds");
    store.set_failing(true);
    let (mut reg, _) = TargetRegistry::hydrate(store).expect("hydrate succeeds");
    let err = reg.create(target("new", "slack", "#new")).expect_err("store rejects the write");
    assert!(matches!(err, RegistryError::StorageFailure));
    // The pre-existing entry is untouched and the new one absent.
    let stored = reg.get(&"01ARZ3NDEKTSV4RRFFQ69G5FAV".to_owned()).expect("still readable");
    assert_eq!(stored.name, "keep");
    assert_eq!(reg.len(), 1);
}

#[test]
fn failed_update_leaves_previous_value() {
    let mut store: MemStore<Target> = MemStore::new();
    let mut seeded = target("slack-ops", "slack", "#ops");
    seeded.id = "01ARZ3NDEKTSV4RRFFQ69G5FAV".to_owned();
    store.put(&seeded.id.clone(), seeded).expect("seeding succeeds");
    store.set_failing(true);
    let (mut reg, _) = TargetRegistry::hydrate(store).expect("hydrate succeeds");
    let err = reg
        .update(
            &"01ARZ3NDEKTSV4RRFFQ69G5FAV".to_owned(),
            target("slack-ops", "slack", "#changed"),
        )
        .expect_err("store rejects the write");
    assert!(matches!(err, RegistryError::StorageFailure));
    let stored = reg.get(&"01ARZ3NDEKTSV4RRFFQ69G5FAV".to_owned()).expect("readable");
    assert_eq!(stored.config, "#ops");
}

#[test]
fn failed_delete_leaves_value() {
    let mut store: MemStore<Target> = MemStore::new();
    let mut seeded = target("slack-ops", "slack", "#ops");
    seeded.id = "01ARZ3NDEKTSV4RRFFQ69G5FAV".to_owned();
    store.put(&seeded.id.clone(), seeded).expect("seeding succeeds");
    store.set_failing(true);
    let (mut reg, _) = TargetRegistry::hydrate(store).expect("hydrate succeeds");
    let err = reg
        .delete(&"01ARZ3NDEKTSV4RRFFQ69G5FAV".to_owned())
        .expect_err("store rejects the write");
    assert!(matches!(err, RegistryError::StorageFailure));
    assert!(reg.get(&"01ARZ3NDEKTSV4RRFFQ69G5FAV".to_owned()).is_ok());
}

#[test]
fn list_returns_all_targets_in_insertion_order() {
    let mut reg = fresh_registry();
    let a = reg.create(target("a", "slack", "#a")).expect("create succeeds");
    let b = reg.create(target("b", "email", "b@example.test")).expect("create succeeds");
    let listed = reg.list();
    assert_eq!(listed.len(), 2);
    assert_eq!(listed[0].id, a.id);
    assert_eq!(listed[0].name, "a");
    assert_eq!(listed[1].id, b.id);
    assert_eq!(listed[1].name, "b");
}

#[test]
fn hydration_skips_malformed_entries() {
    let mut store: MemStore<Target> = MemStore::new();
    let mut good = target("good", "slack", "#good");
    good.id = "01ARZ3NDEKTSV4RRFFQ69G5FAV".to_owned();
    let mut bad = target("", "slack", "#bad");
    bad.id = "01BX5ZZKBKACTAV9WEVGEMMVRZ".to_owned();
    store.put(&good.id.clone(), good).expect("seeding succeeds");
    store.put(&bad.id.clone(), bad).expect("seeding succeeds");
    let (reg, skipped) = TargetRegistry::hydrate(store).expect("hydrate succeeds");
    assert_eq!(reg.len(), 1);
    assert!(reg.get(&"01ARZ3NDEKTSV4RRFFQ69G5FAV".to_owned()).is_ok());
    assert_eq!(skipped, vec!["01BX5ZZKBKACTAV9WEVGEMMVRZ".to_owned()]);
}

#[test]
fn scenario_target_lifecycle() {
    let mut reg = fresh_registry();
    let created = reg.create(target("slack-ops", "slack", "#ops")).expect("create succeeds");
    assert!(!created.id.is_empty());
    let err = reg
        .update(&created.id, target("slack-ops-renamed", "slack", "#ops"))
        .expect_err("renaming fails");
    assert!(matches!(err, RegistryError::InvalidModification));
    let updated = reg
        .update(&created.id, target("slack-ops", "slack", "#ops-new"))
        .expect("same-name update succeeds");
    assert_eq!(updated.config, "#ops-new");
    let stored = reg.get(&created.id).expect("readable");
    assert_eq!(stored.config, "#ops-new");
    let deleted = reg.delete(&created.id).expect("deletable");
    assert_eq!(deleted.name, "slack-ops");
    assert_eq!(deleted.config, "#ops-new");
    let err = reg.get(&created.id).expect_err("gone");
    assert!(matches!(err, RegistryError::NotFound));
}
