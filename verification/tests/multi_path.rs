use rs_smarttcp::multi_path::{best_path_index, paths_to_register, DeviceKind, MAX_WIRED_PATHS};
use rs_smarttcp::network_interfaces::parse_netadapter_output;

#[test]
fn best_path_is_the_lowest_measured_key() {
    assert_eq!(best_path_index(&[Some(50), Some(10), Some(30)]), Some(1));
    assert_eq!(best_path_index(&[None, Some(40), None, Some(40)]), Some(1));
}

#[test]
fn no_best_path_without_measurements() {
    assert_eq!(best_path_index(&[None, None]), None);
    assert_eq!(best_path_index(&[]), None);
}

#[test]
fn detected_connected_wired_and_wifi_adapters_become_paths() {
    let report = parse_netadapter_output(
        "eth0||Up||802.3\neth1||Disconnected||802.3\nWi-Fi||Up||Native 802.11\nBluetooth||Disconnected||Bluetooth\n",
    );
    let regs = paths_to_register(&report);
    assert_eq!(regs, vec![("eth0".to_string(), DeviceKind::Other), ("Wi-Fi".to_string(), DeviceKind::Wifi)]);
}

#[test]
fn multiple_wifi_and_bluetooth_adapters_are_all_registered() {
    let report = parse_netadapter_output(
        "Wi-Fi||Up||Native 802.11\nWiFi USB Dongle||Up||Native 802.11\nBluetooth Network Connection||Up||Bluetooth\nBluetooth PAN 2||Up||Bluetooth\n",
    );
    let regs = paths_to_register(&report);
    assert_eq!(regs.len(), 4);
    assert_eq!(regs.iter().filter(|(_, k)| *k == DeviceKind::Wifi).count(), 2);
    assert_eq!(regs.iter().filter(|(_, k)| *k == DeviceKind::Bluetooth).count(), 2);
}

#[test]
fn wired_registrations_are_capped_at_four() {
    let mut text = String::new();
    for i in 0..6 {
        text.push_str(&format!("eth{i}||Up||802.3\n"));
    }
    text.push_str("wifi||Up||Native 802.11\n");
    let regs = paths_to_register(&parse_netadapter_output(&text));
    let wired: Vec<&String> = regs.iter().filter(|(_, k)| *k == DeviceKind::Other).map(|(n, _)| n).collect();
    assert_eq!(wired.len(), MAX_WIRED_PATHS);
    assert_eq!(wired, vec!["eth0", "eth1", "eth2", "eth3"]);
    assert_eq!(regs.last(), Some(&("wifi".to_string(), DeviceKind::Wifi)));
}

use rs_smarttcp::multi_path::PathRegistry;
use rs_smarttcp::network_interfaces::{InterfaceKind, NetworkInterface, NetworkInterfaceReport};

fn iface(name: &str, kind: InterfaceKind, connected: bool) -> NetworkInterface {
    NetworkInterface { name: name.to_string(), kind, connected, link_speed_bps: None }
}

// RTT keys below are the smoothed RTTs in milliseconds (integers keep their
// order as keys).

#[test]
fn best_path_picks_the_lowest_rtt_among_registered_paths() {
    let mut reg = PathRegistry::new();
    reg.set_rtt_key("eth0", 50);
    reg.set_rtt_key("eth1", 10);
    reg.set_rtt_key("wifi", 30);
    assert_eq!(reg.best_path(), Some("eth1".to_string()));
}

#[test]
fn best_path_is_none_when_no_samples_recorded() {
    let mut reg = PathRegistry::default();
    reg.register_path("eth0");
    assert_eq!(reg.best_path(), None);
}

#[test]
fn failover_switches_best_path_when_active_path_degrades() {
    let mut reg = PathRegistry::new();
    reg.set_rtt_key("eth0", 10);
    reg.set_rtt_key("wifi", 50);
    assert_eq!(reg.best_path(), Some("eth0".to_string()));
    reg.set_rtt_key("eth0", 500);
    assert_eq!(reg.best_path(), Some("wifi".to_string()), "must fail over to the now-better path");
}

#[test]
fn supports_up_to_four_wired_paths_plus_wifi() {
    let mut reg = PathRegistry::new();
    for i in 0..MAX_WIRED_PATHS {
        reg.set_rtt_key(&format!("eth{i}"), 20 + i as u64);
    }
    reg.set_rtt_key("wifi", 15);
    assert_eq!(reg.path_count(), MAX_WIRED_PATHS + 1);
    assert_eq!(reg.best_path(), Some("wifi".to_string()));
}

#[test]
fn register_device_path_labels_router_and_nas_without_affecting_selection() {
    let mut reg = PathRegistry::new();
    reg.register_device_path("Router (LAN1)", DeviceKind::Router);
    reg.register_device_path("NAS (LAN2)", DeviceKind::Nas);
    reg.register_device_path("External HDD (LAN3)", DeviceKind::ExternalStorage);
    reg.set_rtt_key("Router (LAN1)", 5);
    reg.set_rtt_key("NAS (LAN2)", 20);
    reg.set_rtt_key("External HDD (LAN3)", 15);

    let paths = reg.registered_paths();
    assert_eq!(paths.len(), 3);
    assert!(paths.iter().any(|(name, kind, _)| name == "Router (LAN1)" && *kind == DeviceKind::Router));
    assert!(paths.iter().any(|(name, kind, _)| name == "NAS (LAN2)" && *kind == DeviceKind::Nas));
    assert_eq!(reg.best_path(), Some("Router (LAN1)".to_string()));
}

#[test]
fn registered_paths_are_listed_by_name_and_reregistering_keeps_the_measurement() {
    let mut reg = PathRegistry::new();
    reg.register_device_path("Router (LAN1)", DeviceKind::Router);
    reg.register_device_path("NAS (LAN2)", DeviceKind::Nas);
    reg.register_device_path("External HDD (LAN3)", DeviceKind::ExternalStorage);
    reg.set_rtt_key("Router (LAN1)", 20);
    reg.set_rtt_key("NAS (LAN2)", 15);
    assert_eq!(
        reg.registered_paths(),
        vec![
            ("External HDD (LAN3)".to_string(), DeviceKind::ExternalStorage, None),
            ("NAS (LAN2)".to_string(), DeviceKind::Nas, Some(15)),
            ("Router (LAN1)".to_string(), DeviceKind::Router, Some(20)),
        ]
    );
    reg.register_device_path("NAS (LAN2)", DeviceKind::Pc);
    assert!(reg.registered_paths().contains(&("NAS (LAN2)".to_string(), DeviceKind::Pc, Some(15))));
    assert_eq!(reg.path_count(), 3);
}

#[test]
fn an_unregistered_path_with_a_sample_is_registered_as_other() {
    let mut reg = PathRegistry::new();
    reg.set_rtt_key("eth9", 7);
    assert_eq!(reg.registered_paths(), vec![("eth9".to_string(), DeviceKind::Other, Some(7))]);
}

#[test]
fn equal_rtts_go_to_the_first_name() {
    let mut reg = PathRegistry::new();
    reg.set_rtt_key("b", 5);
    reg.set_rtt_key("a", 5);
    assert_eq!(reg.best_path(), Some("a".to_string()));
}

#[test]
fn from_detected_interfaces_registers_connected_wired_and_wifi_paths() {
    let report = NetworkInterfaceReport {
        interfaces: vec![
            iface("eth0", InterfaceKind::Ethernet, true),
            iface("eth1", InterfaceKind::Ethernet, false),
            iface("Wi-Fi", InterfaceKind::Wifi, true),
            iface("Bluetooth", InterfaceKind::Other, true),
        ],
    };
    let reg = PathRegistry::from_detected_interfaces(&report);
    assert_eq!(reg.path_count(), 2);
    let paths = reg.registered_paths();
    assert!(paths.iter().any(|(name, kind, _)| name == "eth0" && *kind == DeviceKind::Other));
    assert!(paths.iter().any(|(name, kind, _)| name == "Wi-Fi" && *kind == DeviceKind::Wifi));
}

#[test]
fn from_detected_interfaces_registers_multiple_wifi_and_bluetooth_without_a_cap() {
    let report = NetworkInterfaceReport {
        interfaces: vec![
            iface("Wi-Fi", InterfaceKind::Wifi, true),
            iface("WiFi USB Dongle", InterfaceKind::Wifi, true),
            iface("Bluetooth Network Connection", InterfaceKind::Bluetooth, true),
            iface("Bluetooth PAN 2", InterfaceKind::Bluetooth, true),
        ],
    };
    let reg = PathRegistry::from_detected_interfaces(&report);
    assert_eq!(reg.path_count(), 4, "no cap on WiFi/Bluetooth registrations, unlike wired");
    let paths = reg.registered_paths();
    assert_eq!(paths.iter().filter(|(_, k, _)| *k == DeviceKind::Wifi).count(), 2);
    assert_eq!(paths.iter().filter(|(_, k, _)| *k == DeviceKind::Bluetooth).count(), 2);
}

#[test]
fn from_detected_interfaces_caps_wired_registrations_at_max_wired_paths() {
    let interfaces = (0..6).map(|i| iface(&format!("eth{i}"), InterfaceKind::Ethernet, true)).collect();
    let report = NetworkInterfaceReport { interfaces };
    let reg = PathRegistry::from_detected_interfaces(&report);
    assert_eq!(reg.path_count(), MAX_WIRED_PATHS, "must cap at the documented max of 4 wired paths");
}

#[test]
fn register_path_leaves_an_already_registered_path_alone() {
    let mut reg = PathRegistry::new();
    reg.register_device_path("r", DeviceKind::Router);
    reg.set_rtt_key("r", 9);
    reg.register_path("r");
    assert_eq!(reg.registered_paths(), vec![("r".to_string(), DeviceKind::Router, Some(9))]);
    reg.register_path("s");
    assert!(reg.registered_paths().contains(&("s".to_string(), DeviceKind::Other, None)));
}
