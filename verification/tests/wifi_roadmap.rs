use rs_smarttcp::wifi_roadmap::{is_valid_combination, WifiBand, WifiChannelRegistry, WifiGeneration};

#[test]
fn wifi8_is_flagged_as_not_yet_a_finalized_standard() {
    assert!(!WifiGeneration::Wifi8.is_finalized_standard());
    assert!(WifiGeneration::Wifi7.is_finalized_standard());
}

#[test]
fn wifi5_only_supports_5ghz_not_2_4ghz() {
    assert!(!is_valid_combination(WifiGeneration::Wifi5, WifiBand::Band2_4Ghz));
    assert!(is_valid_combination(WifiGeneration::Wifi5, WifiBand::Band5Ghz));
}

#[test]
fn wifi7_supports_all_three_bands() {
    for band in [WifiBand::Band2_4Ghz, WifiBand::Band5Ghz, WifiBand::Band6Ghz] {
        assert!(is_valid_combination(WifiGeneration::Wifi7, band));
    }
}

#[test]
fn registry_rejects_invalid_combination_and_keeps_previous_state_unset() {
    let mut registry = WifiChannelRegistry::new();
    let result = registry.set_channel("wifi-1", WifiGeneration::Wifi5, WifiBand::Band2_4Ghz);
    assert!(result.is_err());
    assert!(registry.channel("wifi-1").is_none());
}

#[test]
fn registry_accepts_valid_combination_and_can_be_read_back() {
    let mut registry = WifiChannelRegistry::new();
    registry.set_channel("wifi-1", WifiGeneration::Wifi6E, WifiBand::Band6Ghz).unwrap();
    assert_eq!(registry.channel("wifi-1"), Some((WifiGeneration::Wifi6E, WifiBand::Band6Ghz)));
    assert_eq!(registry.channel_count(), 1);
}

#[test]
fn supported_band_table_matches_the_ieee_generations() {
    assert_eq!(WifiGeneration::Wifi4.supported_bands(), vec![WifiBand::Band2_4Ghz, WifiBand::Band5Ghz]);
    assert_eq!(WifiGeneration::Wifi5.supported_bands(), vec![WifiBand::Band5Ghz]);
    assert_eq!(WifiGeneration::Wifi6.supported_bands(), vec![WifiBand::Band2_4Ghz, WifiBand::Band5Ghz]);
    assert_eq!(
        WifiGeneration::Wifi6E.supported_bands(),
        vec![WifiBand::Band2_4Ghz, WifiBand::Band5Ghz, WifiBand::Band6Ghz]
    );
    assert!(!is_valid_combination(WifiGeneration::Wifi6, WifiBand::Band6Ghz));
    assert!(is_valid_combination(WifiGeneration::Wifi8, WifiBand::Band6Ghz));
}

#[test]
fn rejected_combination_leaves_an_existing_label_unchanged() {
    let mut registry = WifiChannelRegistry::default();
    registry.set_channel("ap", WifiGeneration::Wifi7, WifiBand::Band5Ghz).unwrap();
    let err = registry.set_channel("ap", WifiGeneration::Wifi4, WifiBand::Band6Ghz).unwrap_err();
    assert_eq!(err, "Wifi4 does not support Band6Ghz per IEEE spec / Wifi4はBand6Ghzに非対応(IEEE仕様上)");
    assert_eq!(registry.channel("ap"), Some((WifiGeneration::Wifi7, WifiBand::Band5Ghz)));
    registry.set_channel("ap", WifiGeneration::Wifi6, WifiBand::Band2_4Ghz).unwrap();
    assert_eq!(registry.channel("ap"), Some((WifiGeneration::Wifi6, WifiBand::Band2_4Ghz)));
    assert_eq!(registry.channel_count(), 1);
}
