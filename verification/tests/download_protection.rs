use rs_smarttcp::download_protection::{
    clamav_launch_failed_result, clamav_missing_result, clamscan_move_argument, install_security_software_recommendation,
    interpret_scan_result, kingsoft_scan_result, should_unblock_after, verify_and_unblock_result, zone_identifier_stream_path,
    ScanOutcome,
};

#[test]
fn exit_code_zero_means_clean() {
    let result = interpret_scan_result(Some(0), "", false);
    assert_eq!(result.outcome, ScanOutcome::Clean);
    assert!(result.message_ja.contains("安全"));
}

#[test]
fn exit_code_one_with_quarantine_means_threat_removed() {
    let result = interpret_scan_result(Some(1), "Eicar-Test-Signature FOUND", true);
    assert_eq!(result.outcome, ScanOutcome::ThreatRemoved);
    assert_eq!(result.message_ja, "コンピューターウイルスを取り除きましたので、ファイルは安全です。");
}

#[test]
fn exit_code_one_without_quarantine_means_threat_not_removed() {
    let result = interpret_scan_result(Some(1), "Eicar-Test-Signature FOUND", false);
    assert_eq!(result.outcome, ScanOutcome::ThreatFoundNotRemoved);
}

#[test]
fn exit_code_two_or_missing_means_scanner_error() {
    assert_eq!(interpret_scan_result(Some(2), "", false).outcome, ScanOutcome::ScannerUnavailable);
    assert_eq!(interpret_scan_result(None, "", false).outcome, ScanOutcome::ScannerUnavailable);
}

#[test]
fn nonexistent_file_has_no_mark_of_the_web() {
    let stream = zone_identifier_stream_path("Z:\\definitely\\does\\not\\exist.txt");
    assert!(!std::path::Path::new(&stream).exists());
}

#[test]
fn scanner_error_message_quotes_the_trimmed_last_line_of_output() {
    let result = interpret_scan_result(Some(2), "first line\n  LibClamAV Error: cannot open  \n", false);
    assert_eq!(
        result.message_en,
        "Virus scan could not be completed (scanner error). Raw output: LibClamAV Error: cannot open"
    );
    assert_eq!(result.message_ja, "ウイルススキャンを完了できませんでした(スキャナーエラー)。");
    let empty = interpret_scan_result(None, "", false);
    assert_eq!(empty.message_en, "Virus scan could not be completed (scanner error). Raw output: ");
}

#[test]
fn threat_not_removed_has_bilingual_english_message_and_empty_japanese() {
    let result = interpret_scan_result(Some(1), "", false);
    assert!(result.message_en.starts_with("A computer virus was found but could not be quarantined."));
    assert!(result.message_ja.is_empty());
}

#[test]
fn kingsoft_requires_manual_scan_when_installed_and_is_unavailable_otherwise() {
    let found = kingsoft_scan_result(true);
    assert_eq!(found.outcome, ScanOutcome::ManualScanRequired);
    assert!(found.message_ja.contains("手動"));
    let missing = kingsoft_scan_result(false);
    assert_eq!(missing.outcome, ScanOutcome::ScannerUnavailable);
    assert!(missing.message_en.contains("https://www.kingsoft.jp/is/download"));
    assert!(missing.message_ja.is_empty());
}

#[test]
fn missing_or_unlaunchable_clamav_is_never_reported_safe() {
    assert_eq!(clamav_missing_result().outcome, ScanOutcome::ScannerUnavailable);
    let failed = clamav_launch_failed_result("access denied");
    assert_eq!(failed.outcome, ScanOutcome::ScannerUnavailable);
    assert_eq!(
        failed.message_en,
        "Virus scan unavailable: failed to run ClamAV (access denied). / ウイルススキャンは利用できません: ClamAVの実行に失敗しました(access denied)。"
    );
}

#[test]
fn move_argument_and_stream_path_are_built_from_the_given_paths() {
    assert_eq!(clamscan_move_argument("C:\\q"), "--move=C:\\q");
    assert_eq!(zone_identifier_stream_path("C:\\a.exe"), "C:\\a.exe:Zone.Identifier");
}

#[test]
fn install_recommendation_is_bilingual() {
    let (en, ja) = install_security_software_recommendation();
    assert!(en.contains("even a free edition is fine"));
    assert!(ja.contains("無料版でも良いのでインストールしましょう"));
}

#[test]
fn unblocking_is_allowed_only_after_a_clean_scan() {
    assert!(should_unblock_after(ScanOutcome::Clean));
    for outcome in [
        ScanOutcome::ThreatRemoved,
        ScanOutcome::ThreatFoundNotRemoved,
        ScanOutcome::ScannerUnavailable,
        ScanOutcome::ManualScanRequired,
    ] {
        assert!(!should_unblock_after(outcome));
    }
}

#[test]
fn remove_mark_of_the_web_only_attempted_when_clean_or_no_op_otherwise() {
    let unavailable = verify_and_unblock_result(clamav_missing_result(), true);
    assert!(!unavailable.unblocked, "must never unblock when the scan outcome wasn't Clean");
    assert_eq!(unavailable.scan.outcome, ScanOutcome::ScannerUnavailable);

    let clean = verify_and_unblock_result(interpret_scan_result(Some(0), "", false), true);
    assert!(clean.unblocked);
    let clean_but_not_removed = verify_and_unblock_result(interpret_scan_result(Some(0), "", false), false);
    assert!(!clean_but_not_removed.unblocked);
}

use rs_smarttcp::download_protection::has_antivirus_in_count_output;

#[test]
fn antivirus_count_output_is_read_as_a_positive_u32() {
    assert!(has_antivirus_in_count_output("1\r\n"));
    assert!(has_antivirus_in_count_output("  3 "));
    assert!(!has_antivirus_in_count_output("0\n"));
    assert!(!has_antivirus_in_count_output(""));
    assert!(!has_antivirus_in_count_output("several"));
    assert!(!has_antivirus_in_count_output("4294967296"));
    assert!(has_antivirus_in_count_output("4294967295"));
}
