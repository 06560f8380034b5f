use rs_smarttcp::multi_wan::{MultiWanManager, MAX_WAN_LINES};

#[test]
fn registers_and_configures_multiple_independent_wan_lines() {
    let mut mgr = MultiWanManager::new();
    mgr.register_line("WAN1 (Fiber A)").unwrap();
    mgr.register_line("WAN2 (Fiber B)").unwrap();

    mgr.set_v6_plus_enabled("WAN1 (Fiber A)", true);
    mgr.set_ipv6_enabled("WAN2 (Fiber B)", true);

    assert_eq!(mgr.connection_summary("WAN1 (Fiber A)"), Some("IPv6 (v6プラス / MAP-E)"));
    assert_eq!(mgr.connection_summary("WAN2 (Fiber B)"), Some("IPv6 (v6プラス以外 / non-MAP-E)"));
}

#[test]
fn caps_registration_at_ten_lines() {
    let mut mgr = MultiWanManager::new();
    for i in 0..MAX_WAN_LINES {
        mgr.register_line(&format!("WAN{i}")).unwrap();
    }
    assert_eq!(mgr.line_count(), MAX_WAN_LINES);
    assert!(mgr.register_line("WAN10").is_err(), "must reject the 11th WAN line");
}

#[test]
fn registering_the_same_name_twice_is_idempotent() {
    let mut mgr = MultiWanManager::new();
    mgr.register_line("WAN1").unwrap();
    mgr.register_line("WAN1").unwrap();
    assert_eq!(mgr.line_count(), 1);
}

#[test]
fn operations_on_unregistered_line_return_none_or_false_without_panicking() {
    let mut mgr = MultiWanManager::new();
    assert!(!mgr.set_ipv6_enabled("does-not-exist", true));
    assert_eq!(mgr.connection_summary("does-not-exist"), None);
}

#[test]
fn removing_a_line_frees_a_slot_for_a_new_one() {
    let mut mgr = MultiWanManager::new();
    for i in 0..MAX_WAN_LINES {
        mgr.register_line(&format!("WAN{i}")).unwrap();
    }
    mgr.remove_line("WAN0");
    assert!(mgr.register_line("WAN-new").is_ok());
}

#[test]
fn the_eleventh_line_error_names_the_limit() {
    let mut mgr = MultiWanManager::default();
    for i in 0..MAX_WAN_LINES {
        mgr.register_line(&format!("WAN{i}")).unwrap();
    }
    let err = mgr.register_line("WAN10").unwrap_err();
    assert!(err.contains("10"));
    assert_eq!(mgr.line_count(), MAX_WAN_LINES);
    // An already registered line is still accepted when full.
    assert!(mgr.register_line("WAN3").is_ok());
}

#[test]
fn line_settings_are_independent_and_read_back() {
    let mut mgr = MultiWanManager::new();
    mgr.register_line("A").unwrap();
    mgr.register_line("B").unwrap();
    assert!(mgr.set_auto_configure_enabled("A", true));
    assert!(mgr.set_v6_plus_enabled("B", true));
    assert_eq!(mgr.is_auto_configure_enabled("A"), Some(true));
    assert_eq!(mgr.is_auto_configure_enabled("B"), Some(false));
    assert_eq!(mgr.is_ipv6_enabled("B"), Some(true));
    assert_eq!(mgr.is_v6_plus_enabled("A"), Some(false));
    assert_eq!(mgr.is_v6_plus_enabled("missing"), None);
    assert!(mgr.set_ipv6_enabled("B", false));
    assert_eq!(mgr.is_v6_plus_enabled("B"), Some(false));
    assert_eq!(mgr.connection_summary("B"), Some("IPv4"));
    let mut names = mgr.line_names();
    names.sort();
    assert_eq!(names, vec!["A".to_string(), "B".to_string()]);
    mgr.remove_line("A");
    assert_eq!(mgr.connection_summary("A"), None);
    assert_eq!(mgr.line_count(), 1);
}
