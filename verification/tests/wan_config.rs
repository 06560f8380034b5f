use rs_smarttcp::wan_config::WanConfig;

#[test]
fn defaults_to_ipv4() {
    let wan = WanConfig::new();
    assert_eq!(wan.connection_summary(), "IPv4");
}

#[test]
fn enabling_v6_plus_also_enables_ipv6() {
    let mut wan = WanConfig::new();
    wan.set_v6_plus_enabled(true);
    assert!(wan.is_ipv6_enabled());
    assert_eq!(wan.connection_summary(), "IPv6 (v6プラス / MAP-E)");
}

#[test]
fn ipv6_without_v6_plus_is_a_valid_independent_state() {
    let mut wan = WanConfig::new();
    wan.set_ipv6_enabled(true);
    assert!(!wan.is_v6_plus_enabled(), "IPv6 must be usable without v6 plus");
    assert_eq!(wan.connection_summary(), "IPv6 (v6プラス以外 / non-MAP-E)");
}

#[test]
fn disabling_ipv6_also_disables_v6_plus() {
    let mut wan = WanConfig::new();
    wan.set_v6_plus_enabled(true);
    wan.set_ipv6_enabled(false);
    assert!(!wan.is_v6_plus_enabled(), "v6 plus cannot remain on when IPv6 itself is off");
    assert_eq!(wan.connection_summary(), "IPv4");
}

#[test]
fn auto_configure_toggle_is_independent_of_ip_version_choice() {
    let mut wan = WanConfig::new();
    wan.set_auto_configure_enabled(true);
    wan.set_v6_plus_enabled(true);
    assert!(wan.is_auto_configure_enabled());
    wan.set_v6_plus_enabled(false);
    assert!(wan.is_auto_configure_enabled(), "toggling v6 plus must not affect the auto-configure flag");
}

#[test]
fn turning_v6_plus_off_keeps_ipv6_on() {
    let mut wan = WanConfig::default();
    wan.set_v6_plus_enabled(true);
    wan.set_v6_plus_enabled(false);
    assert!(wan.is_ipv6_enabled());
    assert!(!wan.is_v6_plus_enabled());
    assert!(!wan.is_auto_configure_enabled());
    assert_eq!(wan.connection_summary(), "IPv6 (v6プラス以外 / non-MAP-E)");
}
