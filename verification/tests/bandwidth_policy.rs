use rs_smarttcp::bandwidth_policy::{classify_host, BandwidthPolicy, TrafficPurpose, STREAMING_CAP_BYTES_PER_SEC};

#[test]
fn classifies_named_streaming_services_correctly() {
    assert_eq!(classify_host("www.youtube.com"), TrafficPurpose::Streaming);
    assert_eq!(classify_host("video.unext.jp"), TrafficPurpose::Streaming);
    assert_eq!(classify_host("play.qobuz.com"), TrafficPurpose::Streaming);
}

#[test]
fn classifies_other_traffic_as_other_by_default() {
    assert_eq!(classify_host("example.com"), TrafficPurpose::Other);
    assert_eq!(classify_host("sftp.example.com"), TrafficPurpose::Other);
    assert_eq!(classify_host("docs.rs"), TrafficPurpose::Other);
    assert_eq!(classify_host("api.github.com"), TrafficPurpose::Other);
}

#[test]
fn cap_only_applies_when_enabled_and_streaming() {
    let mut policy = BandwidthPolicy::new();
    assert_eq!(policy.bytes_per_second_limit_for_host("www.youtube.com"), None, "off by default");

    policy.set_streaming_cap_enabled(true);
    assert_eq!(policy.bytes_per_second_limit_for_host("www.youtube.com"), Some(STREAMING_CAP_BYTES_PER_SEC));
    assert_eq!(
        policy.bytes_per_second_limit_for_host("docs.rs"),
        None,
        "non-streaming traffic stays uncapped even when the checkbox is on"
    );
}

#[test]
fn host_classification_ignores_ascii_case() {
    assert_eq!(classify_host("WWW.YouTube.COM"), TrafficPurpose::Streaming);
    assert_eq!(classify_host("Play.Qobuz.Com"), TrafficPurpose::Streaming);
}

#[test]
fn streaming_cap_is_ten_megabits_in_bytes() {
    assert_eq!(STREAMING_CAP_BYTES_PER_SEC, 1_250_000);
}

#[test]
fn disabling_the_cap_again_lifts_it() {
    let mut policy = BandwidthPolicy::default();
    policy.set_streaming_cap_enabled(true);
    assert!(policy.is_streaming_cap_enabled());
    policy.set_streaming_cap_enabled(false);
    assert!(!policy.is_streaming_cap_enabled());
    assert_eq!(policy.bytes_per_second_limit_for_host("www.netflix.com"), None);
}
