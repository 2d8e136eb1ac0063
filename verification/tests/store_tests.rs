use gitcode_engine::record::{Record, Role};
use gitcode_engine::store::RecordStore;

fn record(id: &str, name: &str, role: Role) -> Record {
    Record {
        id: id.to_string(),
        name: name.to_string(),
        contact: format!("{}@example.com", name),
        role,
        tags: vec!["a".to_string(), "b".to_string()],
    }
}

#[test]
fn new_store_is_empty() {
    let store = RecordStore::new();
    assert_eq!(store.len(), 0);
    assert!(store.list_all().is_empty());
    assert_eq!(store.get("u1"), None);
    assert!(!store.contains("u1"));
}

#[test]
fn put_then_get_returns_equal_record() {
    let mut store = RecordStore::new();
    store.put("u1".to_string(), record("u1", "ada", Role::Admin));
    assert_eq!(store.get("u1"), Some(record("u1", "ada", Role::Admin)));
    assert!(store.contains("u1"));
    assert_eq!(store.len(), 1);
    assert_eq!(store.get("u2"), None);
}

#[test]
fn put_replaces_whole_record() {
    let mut store = RecordStore::new();
    store.put("u1".to_string(), record("u1", "ada", Role::Admin));
    store.put("u2".to_string(), record("u2", "bob", Role::Viewer));
    let mut changed = record("u1", "grace", Role::Editor);
    changed.tags = vec![];
    changed.contact = "g@example.org".to_string();
    store.put("u1".to_string(), changed);
    assert_eq!(store.len(), 2);
    let found = store.get("u1").unwrap();
    assert_eq!(found.name, "grace");
    assert_eq!(found.contact, "g@example.org");
    assert_eq!(found.role, Role::Editor);
    assert!(found.tags.is_empty());
    assert_eq!(store.get("u2"), Some(record("u2", "bob", Role::Viewer)));
}

#[test]
fn put_holds_record_under_given_key() {
    let mut store = RecordStore::new();
    store.put("key".to_string(), record("other", "ada", Role::Admin));
    assert_eq!(store.get("key"), Some(record("other", "ada", Role::Admin)));
    assert_eq!(store.get("other"), None);
}

#[test]
fn remove_present_returns_true_and_get_is_empty() {
    let mut store = RecordStore::new();
    store.put("u1".to_string(), record("u1", "ada", Role::Admin));
    store.put("u2".to_string(), record("u2", "bob", Role::Viewer));
    assert!(store.remove("u1"));
    assert_eq!(store.get("u1"), None);
    assert_eq!(store.len(), 1);
    assert_eq!(store.get("u2"), Some(record("u2", "bob", Role::Viewer)));
}

#[test]
fn remove_absent_returns_false_and_changes_nothing() {
    let mut store = RecordStore::new();
    store.put("u1".to_string(), record("u1", "ada", Role::Admin));
    assert!(!store.remove("nobody"));
    assert_eq!(store.len(), 1);
    assert_eq!(store.list_all(), vec![record("u1", "ada", Role::Admin)]);
}

#[test]
fn remove_twice_is_true_then_false() {
    let mut store = RecordStore::new();
    store.put("u1".to_string(), record("u1", "ada", Role::Admin));
    assert!(store.remove("u1"));
    assert!(!store.remove("u1"));
    assert_eq!(store.len(), 0);
}

#[test]
fn removed_key_can_be_put_again() {
    let mut store = RecordStore::new();
    store.put("u1".to_string(), record("u1", "ada", Role::Admin));
    assert!(store.remove("u1"));
    store.put("u1".to_string(), record("u1", "bob", Role::Viewer));
    assert_eq!(store.get("u1"), Some(record("u1", "bob", Role::Viewer)));
    assert_eq!(store.len(), 1);
}

#[test]
fn list_all_holds_every_record_once() {
    let mut store = RecordStore::new();
    store.put("u1".to_string(), record("u1", "ada", Role::Admin));
    store.put("u2".to_string(), record("u2", "bob", Role::Viewer));
    store.put("u3".to_string(), record("u3", "cy", Role::Editor));
    store.put("u2".to_string(), record("u2", "bea", Role::Viewer));
    let mut names: Vec<String> = store.list_all().into_iter().map(|r| r.name).collect();
    names.sort();
    assert_eq!(names, vec!["ada".to_string(), "bea".to_string(), "cy".to_string()]);
}

#[test]
fn empty_key_is_a_key_like_any_other() {
    let mut store = RecordStore::new();
    store.put(String::new(), record("", "ada", Role::Admin));
    assert!(store.contains(""));
    assert!(!store.contains(" "));
    assert!(store.remove(""));
}

#[test]
fn keys_differ_by_case_and_by_non_ascii_characters() {
    let mut store = RecordStore::new();
    store.put("ID".to_string(), record("ID", "upper", Role::Admin));
    store.put("id".to_string(), record("id", "lower", Role::Admin));
    store.put("idé".to_string(), record("idé", "accent", Role::Admin));
    assert_eq!(store.len(), 3);
    assert_eq!(store.get("ID").unwrap().name, "upper");
    assert_eq!(store.get("id").unwrap().name, "lower");
    assert_eq!(store.get("idé").unwrap().name, "accent");
    assert_eq!(store.get("ide"), None);
}

#[test]
fn changing_a_listed_copy_leaves_the_store_alone() {
    let mut store = RecordStore::new();
    store.put("u1".to_string(), record("u1", "ada", Role::Admin));
    let mut listed = store.list_all();
    listed[0].name = "changed".to_string();
    listed[0].tags.push("extra".to_string());
    listed[0].role = Role::Viewer;
    assert_eq!(store.get("u1"), Some(record("u1", "ada", Role::Admin)));
    let mut got = store.get("u1").unwrap();
    got.contact.clear();
    assert_eq!(store.get("u1"), Some(record("u1", "ada", Role::Admin)));
}

#[test]
fn clone_of_a_record_is_equal_and_independent() {
    let first = record("u1", "ada", Role::Editor);
    let mut copy = first.clone();
    assert_eq!(copy, first);
    copy.tags.push("c".to_string());
    assert_eq!(first.tags, vec!["a".to_string(), "b".to_string()]);
}
