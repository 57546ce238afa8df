use agentctl::skill::lock::{LockEntry, LockFile};

fn entry(hub: &str, slug: &str) -> LockEntry {
    LockEntry {
        hub_id: hub.into(),
        slug: slug.into(),
        version: "1.0.0".into(),
        commit: "abc1234".into(),
        installed_path: format!("skills/{slug}"),
        installed_at: "2026-07-15T00:00:00Z".into(),
    }
}

#[test]
fn insert_and_get() {
    let mut lock = LockFile::new();
    lock.insert(entry("my-hub", "my-skill"));
    assert!(lock.get("my-hub", "my-skill").is_some());
}

#[test]
fn remove_entry() {
    let mut lock = LockFile::new();
    lock.insert(entry("my-hub", "my-skill"));
    assert!(lock.remove("my-hub", "my-skill"));
    assert!(lock.get("my-hub", "my-skill").is_none());
}

#[test]
fn new_lock_file_is_empty_version_one() {
    let lock = LockFile::new();
    assert_eq!(lock.version, "1.0");
    assert!(lock.skills.is_empty());
    let d = LockFile::default();
    assert_eq!(d.version, "1.0");
    assert!(d.skills.is_empty());
}

#[test]
fn key_is_hub_colon_slug() {
    let mut lock = LockFile::new();
    lock.insert(entry("my-hub", "my-skill"));
    assert_eq!(lock.skills.len(), 1);
    assert_eq!(lock.skills[0].0, "my-hub:my-skill");
}

#[test]
fn insert_replaces_same_key() {
    let mut lock = LockFile::new();
    lock.insert(entry("h", "s"));
    let mut newer = entry("h", "s");
    newer.version = "2.0.0".into();
    lock.insert(newer);
    assert_eq!(lock.skills.len(), 1);
    assert_eq!(lock.get("h", "s").unwrap().version, "2.0.0");
}

#[test]
fn remove_missing_reports_false_and_keeps_others() {
    let mut lock = LockFile::new();
    lock.insert(entry("h", "a"));
    lock.insert(entry("h", "b"));
    assert!(!lock.remove("h", "c"));
    assert!(lock.remove("h", "a"));
    assert!(lock.get("h", "a").is_none());
    assert_eq!(lock.get("h", "b").unwrap().slug, "b");
}

#[test]
fn same_slug_from_two_hubs_is_two_entries() {
    let mut lock = LockFile::new();
    lock.insert(entry("h1", "s"));
    lock.insert(entry("h2", "s"));
    assert_eq!(lock.skills.len(), 2);
    assert_eq!(lock.get("h1", "s").unwrap().hub_id, "h1");
    assert_eq!(lock.get("h2", "s").unwrap().hub_id, "h2");
}
