use rs_smarttcp::secure_channel::{SecureChannel, FRESHNESS_WINDOW_SECS, MAX_TRACKED_SEQ};

#[test]
fn round_trip_encrypt_decrypt_recovers_original_plaintext() {
    let key = [1u8; 32];
    let mut sender = SecureChannel::new(&key);
    let mut receiver = SecureChannel::new(&key);

    let frame = sender.encrypt(b"transfer $100 to account X").unwrap();
    let plaintext = receiver.decrypt(&frame).unwrap();
    assert_eq!(plaintext, b"transfer $100 to account X");
}

#[test]
fn replayed_frame_is_rejected_on_second_delivery() {
    let key = [2u8; 32];
    let mut sender = SecureChannel::new(&key);
    let mut receiver = SecureChannel::new(&key);

    let frame = sender.encrypt(b"order: buy 10 shares").unwrap();
    assert!(receiver.decrypt(&frame).is_ok());
    assert!(receiver.decrypt(&frame).is_err(), "replaying the exact same frame must be rejected");
}

#[test]
fn tampered_frame_fails_authentication_instead_of_decrypting_garbage() {
    let key = [3u8; 32];
    let mut sender = SecureChannel::new(&key);
    let mut receiver = SecureChannel::new(&key);

    let mut frame = sender.encrypt(b"critical data").unwrap();
    let last = frame.len() - 1;
    frame[last] ^= 0xFF;
    assert!(receiver.decrypt(&frame).is_err(), "a tampered ciphertext must fail AEAD authentication");
}

#[test]
fn wrong_key_cannot_decrypt() {
    let mut sender = SecureChannel::new(&[4u8; 32]);
    let mut wrong_receiver = SecureChannel::new(&[5u8; 32]);

    let frame = sender.encrypt(b"secret").unwrap();
    assert!(wrong_receiver.decrypt(&frame).is_err());
}

#[test]
fn frame_layout_is_sequence_timestamp_nonce_then_ciphertext() {
    let mut sender = SecureChannel::new(&[6u8; 32]);
    let nonce = [9u8; 12];
    let first = sender.encrypt_with(b"abc", 1_000, nonce).unwrap();
    let second = sender.encrypt_with(b"abc", 1_000, nonce).unwrap();
    assert_eq!(first.len(), 8 + 8 + 12 + 3 + 16);
    assert_eq!(&first[0..8], &0u64.to_le_bytes());
    assert_eq!(&second[0..8], &1u64.to_le_bytes());
    assert_eq!(&first[8..16], &1_000u64.to_le_bytes());
    assert_eq!(&first[16..28], &nonce);
    assert_ne!(&first[28..], b"abc".as_slice());
}

#[test]
fn stale_and_future_frames_are_refused_with_the_time_difference() {
    let key = [7u8; 32];
    let mut sender = SecureChannel::new(&key);
    let mut receiver = SecureChannel::new(&key);
    let frame = sender.encrypt_with(b"late", 1_000, [1u8; 12]).unwrap();
    assert_eq!(
        receiver.decrypt_at(&frame, 1_000 + FRESHNESS_WINDOW_SECS + 1).unwrap_err(),
        "timestamp outside freshness window (diff=31s)"
    );
    assert_eq!(
        receiver.decrypt_at(&frame, 900).unwrap_err(),
        "timestamp outside freshness window (diff=100s)"
    );
    // A refused stale frame is not remembered, so it opens within the window.
    assert_eq!(receiver.decrypt_at(&frame, 1_000 + FRESHNESS_WINDOW_SECS).unwrap(), b"late");
    assert_eq!(receiver.decrypt_at(&frame, 1_000).unwrap_err(), "replayed sequence number: 0");
}

#[test]
fn short_frames_are_refused() {
    let mut receiver = SecureChannel::new(&[8u8; 32]);
    assert_eq!(receiver.decrypt_at(&[0u8; 27], 0).unwrap_err(), "frame too short");
}

#[test]
fn authentication_failure_is_reported_with_the_aead_error() {
    let mut sender = SecureChannel::new(&[10u8; 32]);
    let mut receiver = SecureChannel::new(&[11u8; 32]);
    let frame = sender.encrypt_with(b"x", 50, [0u8; 12]).unwrap();
    assert_eq!(receiver.decrypt_at(&frame, 50).unwrap_err(), "decryption/authentication failed: aead::Error");
}

#[test]
fn frames_may_arrive_out_of_order_but_each_only_once() {
    let key = [12u8; 32];
    let mut sender = SecureChannel::new(&key);
    let mut receiver = SecureChannel::new(&key);
    let a = sender.encrypt_with(b"a", 10, [1u8; 12]).unwrap();
    let b = sender.encrypt_with(b"b", 10, [2u8; 12]).unwrap();
    assert_eq!(receiver.decrypt_at(&b, 10).unwrap(), b"b");
    assert_eq!(receiver.decrypt_at(&a, 10).unwrap(), b"a");
    assert!(receiver.decrypt_at(&a, 10).is_err());
    assert!(receiver.decrypt_at(&b, 10).is_err());
    assert!(MAX_TRACKED_SEQ >= 2);
}

#[test]
fn the_oldest_sequence_number_is_forgotten_beyond_the_tracking_limit() {
    let key = [13u8; 32];
    let mut sender = SecureChannel::new(&key);
    let mut receiver = SecureChannel::new(&key);
    let mut frames = Vec::new();
    for _ in 0..=MAX_TRACKED_SEQ {
        frames.push(sender.encrypt_with(b"x", 100, [7u8; 12]).unwrap());
    }
    for f in &frames {
        assert!(receiver.decrypt_at(f, 100).is_ok());
    }
    // Sequence number 0 was the smallest of a full set and is forgotten;
    // the others are still refused.
    assert!(receiver.decrypt_at(&frames[0], 100).is_ok());
    assert_eq!(receiver.decrypt_at(&frames[5], 100).unwrap_err(), "replayed sequence number: 5");
}

#[test]
fn a_frame_with_an_altered_tag_is_refused() {
    let key = [14u8; 32];
    let mut sender = SecureChannel::new(&key);
    let mut receiver = SecureChannel::new(&key);
    let mut frame = sender.encrypt_with(b"payload", 10, [3u8; 12]).unwrap();
    let n = frame.len();
    frame[n - 16] ^= 0x01;
    assert_eq!(receiver.decrypt_at(&frame, 10).unwrap_err(), "decryption/authentication failed: aead::Error");
}

#[test]
fn an_accepted_frame_is_remembered_by_decrypt() {
    let key = [15u8; 32];
    let mut sender = SecureChannel::new(&key);
    let mut receiver = SecureChannel::new(&key);
    let frame = sender.encrypt(b"once").unwrap();
    assert_eq!(receiver.decrypt(&frame).unwrap(), b"once");
    assert_eq!(receiver.decrypt(&frame).unwrap_err(), "replayed sequence number: 0");
}
