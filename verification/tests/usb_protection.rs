use std::collections::HashSet;

use rs_smarttcp::usb_protection::{autorun_check_result, parse_removable_drive_list, poll_new_drives};

#[test]
fn poll_new_drives_reports_only_newly_appeared_drives_and_updates_seen_set() {
    let mut seen: Vec<String> = vec!["Z:\\".to_string()];
    // This machine reports no removable drives (no PowerShell output).
    let current = parse_removable_drive_list("");

    let newly_inserted = poll_new_drives(&mut seen, current.clone());

    assert!(!newly_inserted.contains(&"Z:\\".to_string()));
    let seen_set: HashSet<String> = seen.into_iter().collect();
    assert_eq!(seen_set, current.into_iter().collect::<HashSet<_>>());
}

#[test]
fn poll_reports_each_new_drive_once_and_forgets_removed_ones() {
    let mut seen: Vec<String> = vec!["E:\\".to_string(), "F:\\".to_string()];
    let current = vec!["F:\\".to_string(), "G:\\".to_string(), "G:\\".to_string(), "H:\\".to_string()];
    let newly: HashSet<String> = poll_new_drives(&mut seen, current).into_iter().collect();
    assert_eq!(newly, ["G:\\", "H:\\"].iter().map(|s| s.to_string()).collect::<HashSet<_>>());
    assert_eq!(seen.len(), 3);
    assert_eq!(
        seen.iter().cloned().collect::<HashSet<_>>(),
        ["F:\\", "G:\\", "H:\\"].iter().map(|s| s.to_string()).collect::<HashSet<_>>()
    );
    let again = poll_new_drives(&mut seen, vec!["F:\\".to_string()]);
    assert!(again.is_empty());
    assert_eq!(seen, vec!["F:\\".to_string()]);
}

#[test]
fn drive_list_is_trimmed_skips_blank_lines_and_gets_a_backslash() {
    let drives = parse_removable_drive_list("E:\r\n\r\n  F: \nG:");
    assert_eq!(drives, vec!["E:\\".to_string(), "F:\\".to_string(), "G:\\".to_string()]);
    assert!(parse_removable_drive_list("").is_empty());
}

#[test]
fn neutralize_autorun_inf_reports_not_found_when_absent() {
    let result = autorun_check_result(false, false);
    assert!(!result.found);
    assert!(!result.quarantined);
}

#[test]
fn neutralize_autorun_inf_renames_existing_file_instead_of_deleting() {
    let result = autorun_check_result(true, true);
    assert!(result.found);
    assert!(result.quarantined);
    let failed_rename = autorun_check_result(true, false);
    assert!(failed_rename.found);
    assert!(!failed_rename.quarantined);
}
