use rs_smarttcp::link_diagnostics::{classify_link_health, recommend_healthiest_index, LinkHealth};

#[test]
fn disconnected_comes_before_any_rtt_judgement() {
    assert_eq!(classify_link_health(false, Some(true), Some(true)), LinkHealth::Disconnected);
    assert_eq!(classify_link_health(false, None, None), LinkHealth::Disconnected);
}

#[test]
fn high_jitter_is_unstable_even_with_low_rtt() {
    assert_eq!(classify_link_health(true, Some(false), Some(true)), LinkHealth::Unstable);
    assert_eq!(classify_link_health(true, Some(true), Some(true)), LinkHealth::Unstable);
}

#[test]
fn high_steady_rtt_is_degraded_and_low_steady_rtt_healthy() {
    assert_eq!(classify_link_health(true, Some(true), Some(false)), LinkHealth::Degraded);
    assert_eq!(classify_link_health(true, Some(true), None), LinkHealth::Degraded);
    assert_eq!(classify_link_health(true, Some(false), Some(false)), LinkHealth::Healthy);
}

#[test]
fn no_samples_is_pending_measurement() {
    assert_eq!(classify_link_health(true, None, None), LinkHealth::Unknown);
    assert_eq!(classify_link_health(true, Some(false), None), LinkHealth::Unknown);
    assert_eq!(classify_link_health(true, None, Some(true)), LinkHealth::Unknown);
}

#[test]
fn recommendation_prefers_healthy_then_degraded_and_skips_the_rest() {
    let health = [LinkHealth::Degraded, LinkHealth::Unstable, LinkHealth::Healthy, LinkHealth::Healthy];
    assert_eq!(recommend_healthiest_index(&health, &[200, 1, 30, 10]), Some(3));
    let no_healthy = [LinkHealth::Unstable, LinkHealth::Degraded, LinkHealth::Degraded, LinkHealth::Disconnected];
    assert_eq!(recommend_healthiest_index(&no_healthy, &[1, 300, 200, 0]), Some(2));
    let none = [LinkHealth::Unstable, LinkHealth::Disconnected, LinkHealth::Unknown];
    assert_eq!(recommend_healthiest_index(&none, &[1, 1, 1]), None);
    assert_eq!(recommend_healthiest_index(&[], &[]), None);
}

#[test]
fn ties_go_to_the_first_link() {
    let health = [LinkHealth::Healthy, LinkHealth::Healthy];
    assert_eq!(recommend_healthiest_index(&health, &[5, 5]), Some(0));
}

#[test]
fn labels_are_bilingual() {
    assert_eq!(LinkHealth::Healthy.label_en(), "Healthy");
    assert_eq!(LinkHealth::Healthy.label_ja(), "🟢 正常");
    assert_eq!(LinkHealth::Disconnected.label_en(), "Disconnected (possible cable fault)");
    assert_eq!(LinkHealth::Unknown.label_ja(), "⚪ 測定待ち");
}

use rs_smarttcp::link_diagnostics::disconnected_without_path;
use rs_smarttcp::network_interfaces::parse_netadapter_output;

#[test]
fn unregistered_disconnected_adapters_are_still_reported() {
    let report = parse_netadapter_output(
        "eth0||Up||802.3\neth1||Disconnected||802.3\nwifi0||Disconnected||Native 802.11\nbt||Disconnected||Bluetooth\n",
    );
    let listed = vec!["eth0".to_string(), "wifi0".to_string()];
    assert_eq!(disconnected_without_path(&report, &listed), vec!["eth1".to_string(), "bt".to_string()]);
    assert!(disconnected_without_path(&parse_netadapter_output(""), &listed).is_empty());
}

#[test]
fn recommend_healthiest_prefers_healthy_over_degraded_and_skips_unstable() {
    // wan-degraded (SRTT 200 ms), wifi-unstable (high jitter), eth-healthy (10 ms).
    let names = ["wan-degraded", "wifi-unstable", "eth-healthy"];
    let health = [LinkHealth::Degraded, LinkHealth::Unstable, LinkHealth::Healthy];
    let best = recommend_healthiest_index(&health, &[200, 40, 10]).unwrap();
    assert_eq!(names[best], "eth-healthy");
}
