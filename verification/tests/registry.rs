use link_registry::CanonicalPath;
use link_registry::LinkRegistry;
use link_registry::RegisteredEnvironments;
use link_registry::RegistryError;
use link_registry::RegistryKey;
use link_registry::encode_path;

/// Create a fresh registry with no bindings.
fn create_registry() -> LinkRegistry {
    LinkRegistry::open()
}

/// The canonical path of a target directory with the given name.
fn create_target_dir(name: &str) -> CanonicalPath {
    CanonicalPath::new(format!("/targets/{}", name).into_bytes())
}

/// encode_path returns the same value for the same path, at different times
#[test]
fn test_encode_path() {
    let path = CanonicalPath::new(b".".to_vec());
    let encoded = encode_path(&path);

    assert_eq!(encoded, encode_path(&path));
}

/// Paths can be registered and retrieved
#[test]
fn test_register_path() {
    let mut registry = create_registry();

    let target_dir = create_target_dir("test");

    let key = registry.register(&target_dir);

    let entry = registry.get(&key).unwrap();
    assert_eq!(entry.path(), target_dir.bytes());
}

/// get can return entries that link to removed paths
#[test]
fn test_get_removed() {
    let mut registry = create_registry();

    let target_dir = create_target_dir("test");

    let key = registry.register(&target_dir);

    let entry = registry.get(&key).unwrap();
    assert_eq!(entry.path(), target_dir.bytes());

    // The target vanishing from disk is no registry operation: the
    // binding records the last-known location regardless.
    let entry = registry.get(&key).unwrap();
    assert_eq!(entry.path(), target_dir.bytes());
}

/// Registering the same path twice returns the same key
#[test]
fn test_register_path_twice_is_noop() {
    let mut registry = create_registry();

    let target_dir = create_target_dir("test");

    let key = registry.register(&target_dir);
    let key2 = registry.register(&target_dir);

    assert_eq!(key, key2);
}

/// Paths can be unregistered and unregister returns the removed entry
#[test]
fn test_unregister() {
    let mut registry = create_registry();

    let target_dir = create_target_dir("test");

    let key = registry.register(&target_dir);

    let inserted = registry.get(&key);
    assert!(inserted.is_some());

    let removed = registry.unregister(&key);
    assert!(registry.get(&key).is_none());

    assert_eq!(inserted, removed);
}

/// Unregistering a non-existent key does not fail
#[test]
fn test_unregister_nonexistent() {
    let mut registry = create_registry();

    let key = RegistryKey::from(String::from("nonexistent"));

    let removed = registry.unregister(&key);

    assert_eq!(removed, None);
}

/// try_iter returns all registered entries
#[test]
fn test_iter() {
    let mut registry = create_registry();

    let target_dir1 = create_target_dir("test1");
    let target_dir2 = create_target_dir("test2");

    let key1 = registry.register(&target_dir1);
    let key2 = registry.register(&target_dir2);

    let entries = registry.try_iter();
    assert_eq!(entries.len(), 2);

    let entry1 = entries.iter().find(|e| e.key() == &key1).unwrap();
    assert_eq!(entry1.path(), target_dir1.bytes());

    let entry2 = entries.iter().find(|e| e.key() == &key2).unwrap();
    assert_eq!(entry2.path(), target_dir2.bytes());
}

/// A fresh registry is empty, and registering one path leaves exactly
/// one entry, named by the returned key and targeting that path
#[test]
fn test_open_fresh_registry_scenario() {
    let mut registry = LinkRegistry::open();
    assert_eq!(registry.try_iter().len(), 0);

    let project = CanonicalPath::new(b"/tmp/project".to_vec());
    let key = registry.register(&project);

    let entries = registry.try_iter();
    assert_eq!(entries.len(), 1);
    assert_eq!(entries[0].key(), &key);
    assert_eq!(entries[0].path(), project.bytes());
}

/// Derived keys are 64 lowercase hexadecimal characters, not the path
/// text itself, and distinct paths get distinct keys
#[test]
fn test_key_is_digest_text() {
    let project = CanonicalPath::new(b"/tmp/project".to_vec());
    let encoded = encode_path(&project);

    assert_eq!(encoded.len(), 64);
    assert!(encoded.chars().all(|c| c.is_ascii_hexdigit() && !c.is_ascii_uppercase()));
    assert_ne!(encoded.as_bytes(), project.bytes().as_slice());

    let other = CanonicalPath::new(b"/tmp/other".to_vec());
    assert_ne!(encoded, encode_path(&other));
}

/// A key wraps the exact text it was built from
#[test]
fn test_key_text_round_trip() {
    let key = RegistryKey::from(String::from("0a1b"));
    assert_eq!(key.as_str(), "0a1b");
    assert_eq!(key.clone(), key);
}

/// Each error kind carries its own description
#[test]
fn test_error_messages() {
    assert_eq!(
        RegistryError::CreateStateDir.message(),
        "failed to create registry state directory"
    );
    assert_eq!(RegistryError::CreatingLink.message(), "failed to create symlink");
    assert_eq!(RegistryError::RemovingLink.message(), "failed to remove symlink");
    assert_eq!(
        RegistryError::ReadingStateDir.message(),
        "failed to read registry state directory"
    );
}

/// The facade registers environments that have a location and skips
/// those without one
#[test]
fn test_registered_environments() {
    let mut envs = RegisteredEnvironments::new();

    envs.register(None);
    assert_eq!(envs.try_iter().len(), 0);

    let location = CanonicalPath::new(b"/envs/demo/project".to_vec());
    envs.register(Some(CanonicalPath::new(location.bytes().clone())));

    let entries = envs.try_iter();
    assert_eq!(entries.len(), 1);
    assert_eq!(entries[0].path(), location.bytes());

    let key = entries[0].key().clone();
    envs.unregister(key);
    assert_eq!(envs.try_iter().len(), 0);
}

/// A facade wraps an existing registry unchanged
#[test]
fn test_environments_from_registry() {
    let mut registry = LinkRegistry::open();
    let project = CanonicalPath::new(b"/tmp/project".to_vec());
    let key = registry.register(&project);

    let envs = RegisteredEnvironments::from(registry);
    let entries = envs.try_iter();
    assert_eq!(entries.len(), 1);
    assert_eq!(entries[0].key(), &key);
}
