use rs_smarttcp::network_interfaces::{classify_lowercased_media, parse_netadapter_output, InterfaceKind};

const SAMPLE_OUTPUT: &str = "\
Ethernet||Up||802.3
Ethernet 2||Disconnected||802.3
Ethernet 3||Up||802.3
Wi-Fi||Disconnected||Native 802.11
";

#[test]
fn parses_connected_and_disconnected_ethernet_adapters() {
    let report = parse_netadapter_output(SAMPLE_OUTPUT);
    assert_eq!(report.wired_connected_count(), 2, "two of the three Ethernet adapters are Up");
}

#[test]
fn parses_wifi_adapter_by_physical_media_type_not_connected() {
    let report = parse_netadapter_output(SAMPLE_OUTPUT);
    assert!(!report.wifi_connected());
}

#[test]
fn parses_connected_wifi_adapter() {
    let report = parse_netadapter_output("Wi-Fi||Up||Native 802.11\n");
    assert!(report.wifi_connected());
}

#[test]
fn empty_output_yields_empty_report() {
    let report = parse_netadapter_output("");
    assert_eq!(report.wired_connected_count(), 0);
    assert!(!report.wifi_connected());
}

#[test]
fn classifies_bluetooth_network_adapters_and_counts_multiple_wifi() {
    let report = parse_netadapter_output(
        "Wi-Fi||Up||Native 802.11\nWiFi USB Dongle||Up||Native 802.11\nBluetooth Network Connection||Up||Bluetooth\n",
    );
    assert_eq!(report.wifi_connected_count(), 2, "must count both WiFi adapters");
    assert_eq!(report.bluetooth_connected_count(), 1);
}

#[test]
fn preserves_japanese_adapter_names_without_mojibake() {
    let report = parse_netadapter_output("イーサネット||Up||802.3\n");
    assert_eq!(report.interfaces[0].name, "イーサネット");
}

#[test]
fn fields_are_trimmed_status_ignores_case_and_speed_is_kept_when_positive() {
    let report = parse_netadapter_output(
        "  LAN 1 || up || 802.3 || 1000000000 \r\nLAN 2||UP||802.3||0\nLAN 3||Up||802.3||fast\nLAN 4||Up||802.3||+25\n",
    );
    assert_eq!(report.interfaces.len(), 4);
    assert_eq!(report.interfaces[0].name, "LAN 1");
    assert!(report.interfaces[0].connected);
    assert_eq!(report.interfaces[0].link_speed_bps, Some(1_000_000_000));
    assert!(report.interfaces[1].connected);
    assert_eq!(report.interfaces[1].link_speed_bps, None);
    assert_eq!(report.interfaces[2].link_speed_bps, None);
    assert_eq!(report.interfaces[3].link_speed_bps, Some(25));
}

#[test]
fn short_and_blank_lines_are_skipped_and_unknown_media_is_other() {
    let report = parse_netadapter_output("\n   \nonly||two\nVPN||Up||Unspecified\nBT||Disconnected||BLUETOOTH\n");
    assert_eq!(report.interfaces.len(), 2);
    assert_eq!(report.interfaces[0].kind, InterfaceKind::Other);
    assert_eq!(report.interfaces[1].kind, InterfaceKind::Bluetooth);
    assert!(!report.interfaces[1].connected);
    assert_eq!(report.bluetooth_connected_count(), 0);
}

#[test]
fn a_speed_that_does_not_fit_in_u64_is_dropped() {
    let report = parse_netadapter_output("LAN||Up||802.3||18446744073709551616\n");
    assert_eq!(report.interfaces[0].link_speed_bps, None);
    let max = parse_netadapter_output("LAN||Up||802.3||18446744073709551615\n");
    assert_eq!(max.interfaces[0].link_speed_bps, Some(u64::MAX));
}

#[test]
fn a_disconnected_adapter_has_no_link_speed() {
    let report = parse_netadapter_output("eth||Disconnected||802.3||1000000000\n");
    assert!(!report.interfaces[0].connected);
    assert_eq!(report.interfaces[0].link_speed_bps, None);
}

#[test]
fn lowercased_media_types_name_their_adapter_kind() {
    assert_eq!(classify_lowercased_media("native 802.11"), InterfaceKind::Wifi);
    assert_eq!(classify_lowercased_media("802.3"), InterfaceKind::Ethernet);
    assert_eq!(classify_lowercased_media("bluetooth"), InterfaceKind::Bluetooth);
    assert_eq!(classify_lowercased_media("unspecified"), InterfaceKind::Other);
    assert_eq!(classify_lowercased_media("Bluetooth"), InterfaceKind::Other);
}
