use rs_smarttcp::download_protection::install_security_software_recommendation;
use rs_smarttcp::maintenance::{build_maintenance_report, definitions_update_outcome, DefinitionsUpdateOutcome};

#[test]
fn run_maintenance_never_panics_and_reports_a_definitions_outcome() {
    // No freshclam here: the update is reported unavailable, never up to date.
    let outcome = definitions_update_outcome(false, false);
    let report = build_maintenance_report(false, outcome);
    assert_eq!(report.definitions_update, DefinitionsUpdateOutcome::DefinitionsUpdateUnavailable);
    assert!(!report.summary_en.is_empty());
    assert!(!report.summary_ja.is_empty());
}

#[test]
fn definitions_are_updated_only_when_freshclam_ran_successfully() {
    assert_eq!(definitions_update_outcome(true, true), DefinitionsUpdateOutcome::Updated);
    assert_eq!(definitions_update_outcome(true, false), DefinitionsUpdateOutcome::DefinitionsUpdateUnavailable);
    assert_eq!(definitions_update_outcome(false, true), DefinitionsUpdateOutcome::DefinitionsUpdateUnavailable);
}

#[test]
fn registered_antivirus_and_updated_definitions_summary() {
    let report = build_maintenance_report(true, DefinitionsUpdateOutcome::Updated);
    assert!(report.antivirus_registered);
    assert_eq!(
        report.summary_en,
        "Security software is registered with Windows Security Center. ClamAV virus definitions are up to date."
    );
    assert_eq!(
        report.summary_ja,
        "セキュリティソフトはWindows セキュリティセンターに登録されています。ClamAVのウイルス定義は最新です。"
    );
}

#[test]
fn missing_antivirus_summary_starts_with_the_install_recommendation() {
    let (en, ja) = install_security_software_recommendation();
    let report = build_maintenance_report(false, DefinitionsUpdateOutcome::DefinitionsUpdateUnavailable);
    assert_eq!(
        report.summary_en,
        format!("{en} ClamAV virus definitions could not be updated (freshclam not found or failed).")
    );
    assert_eq!(
        report.summary_ja,
        format!("{ja}ClamAVのウイルス定義を更新できませんでした(freshclamが見つからない、または失敗しました)。")
    );
}
