use hosts_switcher::model::new_store;
use hosts_switcher::render::apply_config;
use hosts_switcher::selection::{set_multi_select, toggle_profile_active};
use hosts_switcher::store::{create_profile, save_common_config};

#[test]
fn fresh_store_scenario_renders_dev_profile() {
    let mut store = new_store();
    let dev_id = create_profile(&mut store, "Dev".to_string(), Some("x".to_string())).unwrap();
    toggle_profile_active(&mut store, &dev_id);
    let doc = apply_config(&store);
    assert_eq!(
        doc,
        "# Generated by Hosts Switcher\n\n### Common Config ###\n\n\n### Profile: Dev ###\nx\n\n"
    );
    assert!(doc.starts_with("# Generated by Hosts Switcher\n\n"));
    let common_at = doc.find("### Common Config ###").unwrap();
    let dev_at = doc.find("### Profile: Dev ###\nx\n\n").unwrap();
    assert!(common_at < dev_at);
}

#[test]
fn render_follows_stored_order_not_activation_order() {
    let mut store = new_store();
    let a = create_profile(&mut store, "A".to_string(), Some("aa".to_string())).unwrap();
    let b = create_profile(&mut store, "B".to_string(), Some("bb".to_string())).unwrap();
    let c = create_profile(&mut store, "C".to_string(), Some("cc".to_string())).unwrap();
    set_multi_select(&mut store, true);
    // Activate in reverse order; the output still follows the stored order.
    toggle_profile_active(&mut store, &c);
    toggle_profile_active(&mut store, &a);
    toggle_profile_active(&mut store, &b);
    let doc = apply_config(&store);
    let pa = doc.find("### Profile: A ###").unwrap();
    let pb = doc.find("### Profile: B ###").unwrap();
    let pc = doc.find("### Profile: C ###").unwrap();
    assert!(pa < pb && pb < pc);
}

#[test]
fn inactive_profiles_are_not_rendered() {
    let mut store = new_store();
    let a = create_profile(&mut store, "A".to_string(), Some("aa".to_string())).unwrap();
    let _b = create_profile(&mut store, "B".to_string(), Some("bb".to_string())).unwrap();
    toggle_profile_active(&mut store, &a);
    let doc = apply_config(&store);
    assert!(doc.contains("### Profile: A ###"));
    assert!(!doc.contains("### Profile: B ###"));
}

#[test]
fn empty_common_still_emits_header() {
    let store = new_store();
    let doc = apply_config(&store);
    assert_eq!(doc, "# Generated by Hosts Switcher\n\n### Common Config ###\n\n\n");
}

#[test]
fn common_block_is_always_included() {
    let mut store = new_store();
    save_common_config(&mut store, "0.0.0.0 ads.example".to_string());
    let doc = apply_config(&store);
    assert_eq!(
        doc,
        "# Generated by Hosts Switcher\n\n### Common Config ###\n0.0.0.0 ads.example\n\n"
    );
}

#[test]
fn single_select_toggle_keeps_at_most_one_active() {
    let mut store = new_store();
    let a = create_profile(&mut store, "A".to_string(), None).unwrap();
    let b = create_profile(&mut store, "B".to_string(), None).unwrap();
    let c = create_profile(&mut store, "C".to_string(), None).unwrap();
    for id in [&a, &b, &c, &b, &b, &a, &c, &c] {
        toggle_profile_active(&mut store, id);
        let active = store.config.profiles.iter().filter(|p| p.active).count();
        assert!(active <= 1);
    }
}

#[test]
fn single_select_toggle_of_active_deactivates_all() {
    let mut store = new_store();
    let a = create_profile(&mut store, "A".to_string(), None).unwrap();
    toggle_profile_active(&mut store, &a);
    assert!(store.config.profiles[0].active);
    toggle_profile_active(&mut store, &a);
    assert!(store.config.profiles.iter().all(|p| !p.active));
}

#[test]
fn multi_select_toggle_flips_only_the_target() {
    let mut store = new_store();
    let a = create_profile(&mut store, "A".to_string(), None).unwrap();
    let b = create_profile(&mut store, "B".to_string(), None).unwrap();
    set_multi_select(&mut store, true);
    toggle_profile_active(&mut store, &a);
    toggle_profile_active(&mut store, &b);
    assert!(store.config.profiles[0].active && store.config.profiles[1].active);
    toggle_profile_active(&mut store, &a);
    assert!(!store.config.profiles[0].active && store.config.profiles[1].active);
}

#[test]
fn mode_switch_keeps_earliest_active_profile() {
    let mut store = new_store();
    let _a = create_profile(&mut store, "A".to_string(), None).unwrap();
    let b = create_profile(&mut store, "B".to_string(), None).unwrap();
    let c = create_profile(&mut store, "C".to_string(), None).unwrap();
    set_multi_select(&mut store, true);
    toggle_profile_active(&mut store, &c);
    toggle_profile_active(&mut store, &b);
    set_multi_select(&mut store, false);
    assert!(!store.config.multi_select);
    let active: Vec<&str> = store
        .config
        .profiles
        .iter()
        .filter(|p| p.active)
        .map(|p| p.name.as_str())
        .collect();
    assert_eq!(active, vec!["B"]);
}

#[test]
fn mode_switch_with_no_active_leaves_none() {
    let mut store = new_store();
    let _a = create_profile(&mut store, "A".to_string(), None).unwrap();
    set_multi_select(&mut store, true);
    set_multi_select(&mut store, false);
    assert!(store.config.profiles.iter().all(|p| !p.active));
}
