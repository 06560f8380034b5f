use rs_smarttcp::transaction_log::{crc32, decode_valid_records, encode_record};

fn log_of(payloads: &[&[u8]]) -> Vec<u8> {
    let mut buf = Vec::new();
    for p in payloads {
        buf.extend_from_slice(&encode_record(p));
    }
    buf
}

#[test]
fn crc32_matches_the_standard_check_values() {
    assert_eq!(crc32(b""), 0);
    assert_eq!(crc32(b"123456789"), 0xCBF4_3926);
    assert_eq!(crc32(b"The quick brown fox jumps over the lazy dog"), 0x414F_A339);
}

#[test]
fn record_is_length_then_checksum_then_payload() {
    let record = encode_record(b"abc");
    assert_eq!(&record[0..4], &3u32.to_le_bytes());
    assert_eq!(&record[4..8], &crc32(b"abc").to_le_bytes());
    assert_eq!(&record[8..], b"abc");
}

#[test]
fn append_and_read_back_multiple_records_in_order() {
    let buf = log_of(&[b"order: buy 100 shares of AAPL", b"order: sell 50 shares of MSFT"]);
    let records = decode_valid_records(&buf);
    assert_eq!(records, vec![b"order: buy 100 shares of AAPL".to_vec(), b"order: sell 50 shares of MSFT".to_vec()]);
}

#[test]
fn a_truncated_trailing_record_is_ignored_not_returned_as_corrupt_data() {
    let mut buf = log_of(&[b"complete record one"]);
    buf.extend_from_slice(&999u32.to_le_bytes());
    buf.extend_from_slice(&0u32.to_le_bytes());
    buf.extend_from_slice(b"short");
    let records = decode_valid_records(&buf);
    assert_eq!(
        records,
        vec![b"complete record one".to_vec()],
        "the truncated trailing record must be silently ignored, not corrupt the whole read"
    );
}

#[test]
fn a_bit_flipped_record_is_detected_via_checksum_and_excluded() {
    let mut bytes = log_of(&[b"good record"]);
    let corrupt_idx = bytes.len() - 1;
    bytes[corrupt_idx] ^= 0xFF;
    let records = decode_valid_records(&bytes);
    assert!(records.is_empty(), "a checksum mismatch must exclude the record, not silently return corrupted bytes");
}

#[test]
fn reading_stops_at_the_first_corrupt_record() {
    let mut bytes = log_of(&[b"one", b"two", b"three"]);
    let second_payload = encode_record(b"one").len() + 8;
    bytes[second_payload] ^= 0x01;
    assert_eq!(decode_valid_records(&bytes), vec![b"one".to_vec()]);
}

#[test]
fn empty_and_header_only_logs_hold_nothing() {
    assert!(decode_valid_records(&[]).is_empty());
    assert!(decode_valid_records(&[1, 2, 3, 4, 5, 6, 7]).is_empty());
    assert_eq!(decode_valid_records(&encode_record(b"")), vec![Vec::<u8>::new()]);
}
