use rs_smarttcp::router_features::{router_app_plugins, security_router_plugins, RouterFeatures};

#[test]
fn plugin_install_requires_parent_feature_enabled_first() {
    let mut features = RouterFeatures::new();
    let err = features.install_plugin("qos").unwrap_err();
    assert!(err.contains("router app function"));

    features.set_router_app_enabled(true);
    assert!(features.install_plugin("qos").is_ok());
    assert!(features.is_plugin_installed("qos"));
}

#[test]
fn security_router_plugin_requires_security_router_enabled() {
    let mut features = RouterFeatures::new();
    assert!(features.install_plugin("dns_filtering").is_err());
    features.set_security_router_enabled(true);
    assert!(features.install_plugin("dns_filtering").is_ok());
}

#[test]
fn unknown_plugin_id_is_rejected() {
    let mut features = RouterFeatures::new();
    features.set_router_app_enabled(true);
    features.set_security_router_enabled(true);
    assert!(features.install_plugin("totally_made_up_plugin").is_err());
}

#[test]
fn disabling_parent_feature_uninstalls_its_plugins() {
    let mut features = RouterFeatures::new();
    features.set_router_app_enabled(true);
    features.install_plugin("port_forwarding").unwrap();
    assert!(features.is_plugin_installed("port_forwarding"));

    features.set_router_app_enabled(false);
    assert!(!features.is_plugin_installed("port_forwarding"), "disabling the parent feature must uninstall its plugins");
}

#[test]
fn independent_toggles_do_not_affect_each_other() {
    let mut features = RouterFeatures::new();
    features.set_router_app_enabled(true);
    features.install_plugin("qos").unwrap();
    features.set_security_router_enabled(true);
    features.install_plugin("dns_filtering").unwrap();

    features.set_security_router_enabled(false);
    assert!(features.is_plugin_installed("qos"), "router app plugins must survive toggling the unrelated security router feature");
    assert!(!features.is_plugin_installed("dns_filtering"));
}

#[test]
fn error_messages_name_the_plugin_in_both_languages() {
    let mut features = RouterFeatures::default();
    assert_eq!(
        features.install_plugin("dns_filtering").unwrap_err(),
        "'dns_filtering' requires the security router function to be enabled first / 'dns_filtering'にはセキュリティルーター機能を先に有効化してください"
    );
    assert_eq!(
        features.install_plugin("made_up").unwrap_err(),
        "unknown plugin id: made_up / 不明なプラグインID: made_up"
    );
    assert!(features.installed_plugins().is_empty());
}

#[test]
fn installed_plugins_are_listed_sorted_and_uninstall_removes_one() {
    let mut features = RouterFeatures::new();
    features.set_router_app_enabled(true);
    features.set_security_router_enabled(true);
    features.install_plugin("qos").unwrap();
    features.install_plugin("dns_filtering").unwrap();
    features.install_plugin("dhcp_server").unwrap();
    features.install_plugin("qos").unwrap();
    assert_eq!(
        features.installed_plugins(),
        vec!["dhcp_server".to_string(), "dns_filtering".to_string(), "qos".to_string()]
    );
    features.uninstall_plugin("qos");
    assert!(!features.is_plugin_installed("qos"));
    assert!(features.is_router_app_enabled());
    assert!(features.is_security_router_enabled());
}

#[test]
fn plugin_catalogues_are_the_documented_fixed_lists() {
    let router: Vec<&str> = router_app_plugins().iter().map(|p| p.id).collect();
    assert_eq!(router, vec!["port_forwarding", "qos", "dhcp_server"]);
    let security: Vec<&str> = security_router_plugins().iter().map(|p| p.id).collect();
    assert_eq!(security, vec!["ad_tracker_blocking", "dns_filtering", "parental_controls"]);
}
