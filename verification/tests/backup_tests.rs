use hosts_switcher::backup::{config_json, export_data, export_with_timestamp, import_data, parse_config};
use hosts_switcher::model::new_store;
use hosts_switcher::selection::{set_multi_select, toggle_profile_active};
use hosts_switcher::store::{create_profile, list_profiles, save_common_config};
use hosts_switcher::HostsError;

#[test]
fn export_import_reproduces_state() {
    let mut store = new_store();
    let a = create_profile(&mut store, "A".to_string(), Some("1.2.3.4 a\n".to_string())).unwrap();
    let _b = create_profile(&mut store, "B".to_string(), Some("".to_string())).unwrap();
    set_multi_select(&mut store, true);
    toggle_profile_active(&mut store, &a);
    save_common_config(&mut store, "common line\n".to_string());

    let doc = export_with_timestamp(&store, "2024-01-01T00:00:00+00:00");
    let mut fresh = new_store();
    import_data(&mut fresh, &doc).unwrap();

    assert_eq!(fresh.config.multi_select, store.config.multi_select);
    assert_eq!(fresh.common, store.common);
    assert_eq!(fresh.config.profiles.len(), store.config.profiles.len());
    for (p, q) in store.config.profiles.iter().zip(fresh.config.profiles.iter()) {
        assert_eq!(p.id, q.id);
        assert_eq!(p.name, q.name);
        assert_eq!(p.active, q.active);
    }
    let before = list_profiles(&store);
    let after = list_profiles(&fresh);
    for (p, q) in before.iter().zip(after.iter()) {
        assert_eq!(p.content, q.content);
    }
}

#[test]
fn export_import_keeps_awkward_text_byte_for_byte() {
    let mut store = new_store();
    let tricky = "line\\one\n\"quoted\"\t{json: [\\n]}\r\nünïcode ⟦⟧\n";
    let id = create_profile(&mut store, "na\\me\"x".to_string(), Some(tricky.to_string()))
        .unwrap();
    save_common_config(&mut store, "\\\"\n\t\r plain".to_string());

    let doc = export_with_timestamp(&store, "ts");
    let mut fresh = new_store();
    import_data(&mut fresh, &doc).unwrap();
    assert_eq!(fresh.common, store.common);
    assert_eq!(fresh.config.profiles[0].name, "na\\me\"x");
    let after = list_profiles(&fresh);
    assert_eq!(after[0].id, id);
    assert_eq!(after[0].content, tricky);
}

#[test]
fn export_data_stamps_version_two() {
    let store = new_store();
    let doc = export_data(&store);
    assert!(doc.starts_with("{\"version\":2,\"timestamp\":\""));
    let mut fresh = new_store();
    import_data(&mut fresh, &doc).unwrap();
}

#[test]
fn import_is_additive_toward_unmentioned_profiles() {
    let mut donor = new_store();
    create_profile(&mut donor, "A".to_string(), Some("a".to_string())).unwrap();
    let doc = export_with_timestamp(&donor, "ts");

    let mut local = new_store();
    let kept = create_profile(&mut local, "Local".to_string(), Some("keep me".to_string()))
        .unwrap();
    import_data(&mut local, &doc).unwrap();
    // The configuration is replaced, but the local content entry stays.
    assert_eq!(local.config.profiles.len(), 1);
    assert_eq!(local.config.profiles[0].name, "A");
    assert!(local.contents.iter().any(|p| p.0 == kept && p.1 == "keep me"));
}

#[test]
fn import_rejects_malformed_text() {
    let mut store = new_store();
    for bad in ["", "{", "not json at all", "{\"version\":2}", "{\"version\":,"] {
        let r = import_data(&mut store, bad);
        assert!(matches!(r, Err(HostsError::ParseError)));
        assert_eq!(store.config.profiles.len(), 0);
    }
}

#[test]
fn import_rejects_newer_versions() {
    let donor = new_store();
    let doc = export_with_timestamp(&donor, "ts");
    let newer = doc.replacen("{\"version\":2", "{\"version\":3", 1);
    let mut store = new_store();
    assert!(matches!(import_data(&mut store, &newer), Err(HostsError::ParseError)));
    let older = doc.replacen("{\"version\":2", "{\"version\":1", 1);
    assert!(import_data(&mut store, &older).is_ok());
}

#[test]
fn import_rejects_duplicate_names() {
    let doc = "{\"version\":2,\"timestamp\":\"ts\",\"config\":{\"multi_select\":false,\
               \"profiles\":[{\"id\":\"i1\",\"name\":\"A\",\"active\":false},\
               {\"id\":\"i2\",\"name\":\"A\",\"active\":false}]},\
               \"common_content\":\"\",\"profiles_content\":{}}";
    let mut store = new_store();
    assert!(matches!(import_data(&mut store, doc), Err(HostsError::ParseError)));
}

#[test]
fn import_rejects_two_active_in_single_mode() {
    let doc = "{\"version\":2,\"timestamp\":\"ts\",\"config\":{\"multi_select\":false,\
               \"profiles\":[{\"id\":\"i1\",\"name\":\"A\",\"active\":true},\
               {\"id\":\"i2\",\"name\":\"B\",\"active\":true}]},\
               \"common_content\":\"\",\"profiles_content\":{}}";
    let mut store = new_store();
    assert!(matches!(import_data(&mut store, doc), Err(HostsError::ParseError)));
    let multi = doc.replacen("\"multi_select\":false", "\"multi_select\":true", 1);
    assert!(import_data(&mut store, &multi).is_ok());
    assert!(store.config.profiles[0].active && store.config.profiles[1].active);
}

#[test]
fn import_accepts_profile_without_content_entry() {
    let doc = "{\"version\":2,\"timestamp\":\"ts\",\"config\":{\"multi_select\":false,\
               \"profiles\":[{\"id\":\"i1\",\"name\":\"A\",\"active\":false}]},\
               \"common_content\":\"c\",\"profiles_content\":{}}";
    let mut store = new_store();
    import_data(&mut store, doc).unwrap();
    let listed = list_profiles(&store);
    assert_eq!(listed[0].content, "");
    assert_eq!(store.common, "c");
}

#[test]
fn config_json_parse_round_trip() {
    let mut store = new_store();
    create_profile(&mut store, "A \"quoted\"".to_string(), None).unwrap();
    create_profile(&mut store, "B".to_string(), None).unwrap();
    set_multi_select(&mut store, true);
    let text = config_json(&store.config);
    let parsed = parse_config(&text).unwrap();
    assert_eq!(parsed.multi_select, store.config.multi_select);
    assert_eq!(parsed.profiles.len(), 2);
    assert_eq!(parsed.profiles[0].name, "A \"quoted\"");
    assert_eq!(parsed.profiles[0].id, store.config.profiles[0].id);
}

#[test]
fn parse_config_rejects_trailing_text() {
    let store = new_store();
    let mut text = config_json(&store.config);
    text.push_str("garbage");
    assert!(matches!(parse_config(&text), Err(HostsError::ParseError)));
}
