use hosts_switcher::model::{new_store, Store};
use hosts_switcher::store::{
    bootstrap_store, create_profile, delete_profile, find_profile_id_by_name, list_profiles,
    load_common_config, rename_profile, save_common_config, save_profile_content, upsert_profile,
};
use hosts_switcher::HostsError;

fn store_with(names: &[&str]) -> (Store, Vec<String>) {
    let mut store = new_store();
    let mut ids = Vec::new();
    for n in names {
        let id = create_profile(&mut store, n.to_string(), None).unwrap();
        ids.push(id);
    }
    (store, ids)
}

#[test]
fn create_duplicate_name_fails() {
    let mut store = new_store();
    let first = create_profile(&mut store, "A".to_string(), Some("x".to_string()));
    assert!(first.is_ok());
    let second = create_profile(&mut store, "A".to_string(), Some("y".to_string()));
    assert!(matches!(second, Err(HostsError::DuplicateName)));
    assert_eq!(store.config.profiles.len(), 1);
}

#[test]
fn rename_to_taken_name_fails() {
    let (mut store, ids) = store_with(&["A", "B"]);
    let r = rename_profile(&mut store, &ids[1], "A".to_string());
    assert!(matches!(r, Err(HostsError::DuplicateName)));
    assert_eq!(store.config.profiles[1].name, "B");
    // Renaming a profile to its own name is not a collision.
    let r2 = rename_profile(&mut store, &ids[1], "B".to_string());
    assert!(r2.is_ok());
}

#[test]
fn rename_unknown_id_is_not_found() {
    let (mut store, _ids) = store_with(&["A"]);
    let r = rename_profile(&mut store, &"missing".to_string(), "C".to_string());
    assert!(matches!(r, Err(HostsError::NotFound)));
}

#[test]
fn rename_changes_only_the_name() {
    let (mut store, ids) = store_with(&["A", "B"]);
    rename_profile(&mut store, &ids[0], "Z".to_string()).unwrap();
    assert_eq!(store.config.profiles[0].name, "Z");
    assert_eq!(store.config.profiles[0].id, ids[0]);
    assert_eq!(store.config.profiles[1].name, "B");
}

#[test]
fn delete_removes_metadata_and_content() {
    let (mut store, ids) = store_with(&["A", "B"]);
    delete_profile(&mut store, &ids[0]);
    assert_eq!(store.config.profiles.len(), 1);
    assert_eq!(store.config.profiles[0].name, "B");
    assert_eq!(store.contents.len(), 1);
    assert_eq!(store.contents[0].0, ids[1]);
    // Deleting an unknown id is a silent no-op.
    delete_profile(&mut store, &"missing".to_string());
    assert_eq!(store.config.profiles.len(), 1);
}

#[test]
fn save_profile_content_reports_active() {
    let (mut store, ids) = store_with(&["A"]);
    let needs = save_profile_content(&mut store, &ids[0], "10.0.0.1 a".to_string());
    assert!(!needs);
    hosts_switcher::selection::toggle_profile_active(&mut store, &ids[0]);
    let needs2 = save_profile_content(&mut store, &ids[0], "10.0.0.2 a".to_string());
    assert!(needs2);
    let listed = list_profiles(&store);
    assert_eq!(listed[0].content, "10.0.0.2 a");
}

#[test]
fn list_profiles_keeps_order_and_degrades_missing_content() {
    let (mut store, ids) = store_with(&["A", "B", "C"]);
    save_profile_content(&mut store, &ids[1], "b".to_string());
    // A content entry can vanish independently of the metadata.
    store.contents.retain(|p| p.0 != ids[0]);
    let listed = list_profiles(&store);
    assert_eq!(listed.len(), 3);
    assert_eq!(listed[0].name, "A");
    assert_eq!(listed[0].content, "");
    assert_eq!(listed[1].content, "b");
    assert_eq!(listed[2].name, "C");
}

#[test]
fn find_profile_id_by_name_finds_first() {
    let (store, ids) = store_with(&["A", "B"]);
    assert_eq!(find_profile_id_by_name(&store, &"B".to_string()), Some(ids[1].clone()));
    assert_eq!(find_profile_id_by_name(&store, &"Z".to_string()), None);
}

#[test]
fn upsert_updates_existing_and_creates_new() {
    let (mut store, ids) = store_with(&["A"]);
    let r = upsert_profile(&mut store, "A".to_string(), "new content".to_string()).unwrap();
    assert_eq!(r, ids[0]);
    assert_eq!(store.config.profiles.len(), 1);
    let listed = list_profiles(&store);
    assert_eq!(listed[0].content, "new content");
    let r2 = upsert_profile(&mut store, "B".to_string(), "b".to_string()).unwrap();
    assert_ne!(r2, ids[0]);
    assert_eq!(store.config.profiles.len(), 2);
    assert_eq!(list_profiles(&store)[1].content, "b");
}

#[test]
fn common_block_round_trip() {
    let mut store = new_store();
    save_common_config(&mut store, "127.0.0.1 localhost\n".to_string());
    assert_eq!(load_common_config(&store), "127.0.0.1 localhost\n");
}

#[test]
fn bootstrap_creates_backup_and_defaults() {
    let store = bootstrap_store(Some("127.0.0.1 localhost\n".to_string())).unwrap();
    assert!(!store.config.multi_select);
    let names: Vec<&str> = store.config.profiles.iter().map(|p| p.name.as_str()).collect();
    assert_eq!(names, vec!["System Hosts Backup", "Dev", "Test", "Prod"]);
    assert!(store.config.profiles.iter().all(|p| !p.active));
    let listed = list_profiles(&store);
    assert_eq!(listed[0].content, "127.0.0.1 localhost\n");
    assert_eq!(listed[1].content, "# New Environment\n");
}

#[test]
fn bootstrap_uses_placeholder_on_read_failure() {
    let store = bootstrap_store(None).unwrap();
    let listed = list_profiles(&store);
    assert_eq!(listed[0].content, "# Backup failed");
}

#[test]
fn error_messages_name_the_failure() {
    assert_eq!(HostsError::NotFound.message(), "Profile not found");
    assert_eq!(HostsError::DuplicateName.message(), "Profile name already exists");
    assert_eq!(HostsError::IoError("disk full".to_string()).message(), "disk full");
    assert_eq!(HostsError::ParseError.message(), "Invalid JSON");
}
