use rs_smarttcp::{mode_for, retry_backoff_ms, AdaptiveMode};

#[test]
fn photonic_class_links_get_fast_mode_and_others_slow() {
    assert_eq!(mode_for(true), AdaptiveMode::Fast);
    assert_eq!(mode_for(false), AdaptiveMode::Slow);
}

#[test]
fn fast_mode_backs_off_5ms_and_slow_mode_200ms() {
    assert_eq!(retry_backoff_ms(AdaptiveMode::Fast), 5);
    assert_eq!(retry_backoff_ms(AdaptiveMode::Slow), 200);
    assert!(retry_backoff_ms(mode_for(true)) < retry_backoff_ms(mode_for(false)));
}
