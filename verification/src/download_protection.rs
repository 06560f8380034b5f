//! Decisions of the download virus scan and of the "Mark of the Web"
//! unblocking: how a ClamAV run is read (exit code 0 clean, 1 threat found,
//! anything else a scanner error), what KINGSOFT (which has no automatic
//! command-line scan) is answered with, the bilingual messages, and the
//! rule that a file is only ever unblocked after a clean scan. Running the
//! scanners and touching the file system is left to the caller.

use vstd::prelude::*;
use vstd::string::{StrSliceExecFns, StringExecFns};

use crate::text::{
    chars_of, lines, lines_ranges, parse_u64, parse_u64_range, range_pieces, trim, trim_range,
};

verus! {

/// The scanners that can be chosen.
#[derive(Debug, Clone, Copy, PartialEq, Eq, Structural)]
pub enum ScannerBackend {
    ClamAv,
    /// KINGSOFT Internet Security (free edition).
    Kingsoft,
}

#[derive(Debug, Clone, Copy, PartialEq, Eq, Structural)]
pub enum ScanOutcome {
    /// No threat was found.
    Clean,
    /// A threat was found and moved to the quarantine folder.
    ThreatRemoved,
    /// A threat was found but could not be quarantined.
    ThreatFoundNotRemoved,
    /// The scanner is missing or failed to run; never reported as safe.
    ScannerUnavailable,
    /// The scanner has no automatic scan interface; the user must scan by
    /// hand and judge the result.
    ManualScanRequired,
}

#[derive(Debug, Clone)]
pub struct ScanResult {
    pub outcome: ScanOutcome,
    pub message_en: String,
    pub message_ja: String,
}

/// The last line of `s`, trimmed, or the empty text when `s` has no line
/// (`s.lines().last().unwrap_or("").trim()`).
pub open spec fn last_line_trimmed(s: Seq<char>) -> Seq<char> {
    if lines(s).len() == 0 {
        Seq::empty()
    } else {
        trim(lines(s).last())
    }
}

pub open spec fn clean_message_en() -> Seq<char> {
    "No computer virus was found. This file is safe."@
}

pub open spec fn clean_message_ja() -> Seq<char> {
    "コンピューターウイルスは見つかりませんでした。このファイルは安全です。"@
}

pub open spec fn removed_message_en() -> Seq<char> {
    "A computer virus was found and removed. This file is now safe."@
}

pub open spec fn removed_message_ja() -> Seq<char> {
    "コンピューターウイルスを取り除きましたので、ファイルは安全です。"@
}

pub open spec fn not_removed_message_en() -> Seq<char> {
    "A computer virus was found but could not be quarantined. Do not open this file. / コンピューターウイルスが見つかりましたが、隔離できませんでした。このファイルは開かないでください。"@
}

pub open spec fn scanner_error_prefix_en() -> Seq<char> {
    "Virus scan could not be completed (scanner error). Raw output: "@
}

pub open spec fn scanner_error_message_ja() -> Seq<char> {
    "ウイルススキャンを完了できませんでした(スキャナーエラー)。"@
}

/// The outcome of a ClamAV run: exit code 0 is clean; 1 is a threat, removed
/// when the file was moved to quarantine; anything else, or no exit code,
/// is a scanner error.
pub open spec fn clamav_outcome(exit_code: Option<i32>, moved_to_quarantine: bool) -> ScanOutcome {
    match exit_code {
        Some(0) => ScanOutcome::Clean,
        Some(1) => if moved_to_quarantine {
            ScanOutcome::ThreatRemoved
        } else {
            ScanOutcome::ThreatFoundNotRemoved
        },
        _ => ScanOutcome::ScannerUnavailable,
    }
}

/// The English message of a ClamAV run.
pub open spec fn clamav_message_en(
    exit_code: Option<i32>,
    stdout: Seq<char>,
    moved_to_quarantine: bool,
) -> Seq<char> {
    match clamav_outcome(exit_code, moved_to_quarantine) {
        ScanOutcome::Clean => clean_message_en(),
        ScanOutcome::ThreatRemoved => removed_message_en(),
        ScanOutcome::ThreatFoundNotRemoved => not_removed_message_en(),
        _ => scanner_error_prefix_en() + last_line_trimmed(stdout),
    }
}

/// The Japanese message of a ClamAV run (empty where the English one
/// carries both languages).
pub open spec fn clamav_message_ja(exit_code: Option<i32>, moved_to_quarantine: bool) -> Seq<
    char,
> {
    match clamav_outcome(exit_code, moved_to_quarantine) {
        ScanOutcome::Clean => clean_message_ja(),
        ScanOutcome::ThreatRemoved => removed_message_ja(),
        ScanOutcome::ThreatFoundNotRemoved => Seq::empty(),
        _ => scanner_error_message_ja(),
    }
}

fn string_of(s: &str) -> (r: String)
    ensures
        r@ == s@,
{
    s.to_owned()
}

/// The trimmed last line of `stdout`, or `""`.
fn last_line_of(stdout: &str) -> (r: String)
    ensures
        r@ == last_line_trimmed(stdout@),
{
    let v = chars_of(stdout);
    let ls = lines_ranges(&v);
    if ls.len() == 0 {
        return String::new();
    }
    let (a, b) = ls[ls.len() - 1];
    assert(range_pieces(v@, ls@)[ls@.len() - 1] == v@.subrange(a as int, b as int));
    let (ta, tb) = trim_range(&v, a, b);
    stdout.substring_char(ta, tb).to_owned()
}

/// Reads the result of a ClamAV run from its exit code, its standard output
/// and whether the file was found in the quarantine folder afterwards
/// (ClamAV's documented exit codes: 0 no threat, 1 threat found, 2 error).
pub fn interpret_scan_result(exit_code: Option<i32>, stdout: &str, moved_to_quarantine: bool) -> (r:
    ScanResult)
    ensures
        r.outcome == clamav_outcome(exit_code, moved_to_quarantine),
        r.message_en@ == clamav_message_en(exit_code, stdout@, moved_to_quarantine),
        r.message_ja@ == clamav_message_ja(exit_code, moved_to_quarantine),
{
    match exit_code {
        Some(0) => ScanResult {
            outcome: ScanOutcome::Clean,
            message_en: string_of("No computer virus was found. This file is safe."),
            message_ja: string_of(
                "コンピューターウイルスは見つかりませんでした。このファイルは安全です。",
            ),
        },
        Some(1) => {
            if moved_to_quarantine {
                ScanResult {
                    outcome: ScanOutcome::ThreatRemoved,
                    message_en: string_of(
                        "A computer virus was found and removed. This file is now safe.",
                    ),
                    message_ja: string_of(
                        "コンピューターウイルスを取り除きましたので、ファイルは安全です。",
                    ),
                }
            } else {
                ScanResult {
                    outcome: ScanOutcome::ThreatFoundNotRemoved,
                    message_en: string_of(
                        "A computer virus was found but could not be quarantined. Do not open this file. / コンピューターウイルスが見つかりましたが、隔離できませんでした。このファイルは開かないでください。",
                    ),
                    message_ja: String::new(),
                }
            }
        },
        _ => {
            let mut message_en = string_of(
                "Virus scan could not be completed (scanner error). Raw output: ",
            );
            let last = last_line_of(stdout);
            message_en.append(last.as_str());
            ScanResult {
                outcome: ScanOutcome::ScannerUnavailable,
                message_en,
                message_ja: string_of(
                    "ウイルススキャンを完了できませんでした(スキャナーエラー)。",
                ),
            }
        },
    }
}

pub open spec fn kingsoft_manual_message_en() -> Seq<char> {
    "KINGSOFT Internet Security does not provide a documented automatic command-line scan interface. A scan trigger was sent, but it may not open a visible window on its own — please open KINGSOFT from its system tray icon and run the scan manually, then confirm the result yourself."@
}

pub open spec fn kingsoft_manual_message_ja() -> Seq<char> {
    "キングソフト インターネットセキュリティには、文書化された自動コマンドラインスキャン機能がありません。スキャンの起動を試みましたが、単独では画面が表示されない場合があります。タスクトレイのキングソフトアイコンから手動でスキャンを実行し、結果はご自身でご確認ください。"@
}

pub open spec fn kingsoft_missing_message_en() -> Seq<char> {
    "KINGSOFT Internet Security was not found. Download the free edition from https://www.kingsoft.jp/is/download . / キングソフト インターネットセキュリティが見つかりませんでした。https://www.kingsoft.jp/is/download から無料版をダウンロードできます。"@
}

/// The answer to a KINGSOFT scan request: when the scanner is installed, a
/// manual scan is required (it has no automatic scan interface); otherwise
/// the scanner is unavailable, with the download page.
pub fn kingsoft_scan_result(scanner_found: bool) -> (r: ScanResult)
    ensures
        r.outcome == (if scanner_found {
            ScanOutcome::ManualScanRequired
        } else {
            ScanOutcome::ScannerUnavailable
        }),
        r.message_en@ == (if scanner_found {
            kingsoft_manual_message_en()
        } else {
            kingsoft_missing_message_en()
        }),
        r.message_ja@ == (if scanner_found {
            kingsoft_manual_message_ja()
        } else {
            Seq::<char>::empty()
        }),
{
    if scanner_found {
        ScanResult {
            outcome: ScanOutcome::ManualScanRequired,
            message_en: string_of(
                "KINGSOFT Internet Security does not provide a documented automatic command-line scan interface. A scan trigger was sent, but it may not open a visible window on its own — please open KINGSOFT from its system tray icon and run the scan manually, then confirm the result yourself.",
            ),
            message_ja: string_of(
                "キングソフト インターネットセキュリティには、文書化された自動コマンドラインスキャン機能がありません。スキャンの起動を試みましたが、単独では画面が表示されない場合があります。タスクトレイのキングソフトアイコンから手動でスキャンを実行し、結果はご自身でご確認ください。",
            ),
        }
    } else {
        ScanResult {
            outcome: ScanOutcome::ScannerUnavailable,
            message_en: string_of(
                "KINGSOFT Internet Security was not found. Download the free edition from https://www.kingsoft.jp/is/download . / キングソフト インターネットセキュリティが見つかりませんでした。https://www.kingsoft.jp/is/download から無料版をダウンロードできます。",
            ),
            message_ja: String::new(),
        }
    }
}

pub open spec fn clamav_missing_message_en() -> Seq<char> {
    "Virus scan unavailable: ClamAV (clamscan) was not found. Install it for free from https://www.clamav.net/. / ウイルススキャンは利用できません: ClamAV(clamscan)が見つかりませんでした。https://www.clamav.net/ から無料でインストールできます。"@
}

/// The answer when no `clamscan` executable was found: unavailable, never
/// safe.
pub fn clamav_missing_result() -> (r: ScanResult)
    ensures
        r.outcome == ScanOutcome::ScannerUnavailable,
        r.message_en@ == clamav_missing_message_en(),
        r.message_ja@ == Seq::<char>::empty(),
{
    ScanResult {
        outcome: ScanOutcome::ScannerUnavailable,
        message_en: string_of(
            "Virus scan unavailable: ClamAV (clamscan) was not found. Install it for free from https://www.clamav.net/. / ウイルススキャンは利用できません: ClamAV(clamscan)が見つかりませんでした。https://www.clamav.net/ から無料でインストールできます。",
        ),
        message_ja: String::new(),
    }
}

/// The message when `clamscan` was found but could not be run.
pub open spec fn clamav_launch_failed_message_en(error: Seq<char>) -> Seq<char> {
    "Virus scan unavailable: failed to run ClamAV ("@ + error
        + "). / ウイルススキャンは利用できません: ClamAVの実行に失敗しました("@ + error + ")。"@
}

/// The answer when `clamscan` could not be started; `error` is the text of
/// the launch error.
pub fn clamav_launch_failed_result(error: &str) -> (r: ScanResult)
    ensures
        r.outcome == ScanOutcome::ScannerUnavailable,
        r.message_en@ == clamav_launch_failed_message_en(error@),
        r.message_ja@ == Seq::<char>::empty(),
{
    let mut m = string_of("Virus scan unavailable: failed to run ClamAV (");
    m.append(error);
    m.append("). / ウイルススキャンは利用できません: ClamAVの実行に失敗しました(");
    m.append(error);
    m.append(")。");
    ScanResult { outcome: ScanOutcome::ScannerUnavailable, message_en: m, message_ja: String::new() }
}

/// The `--move=` argument that sends infected files to `quarantine_dir`.
pub fn clamscan_move_argument(quarantine_dir: &str) -> (arg: String)
    ensures
        arg@ == "--move="@ + quarantine_dir@,
{
    let mut arg = string_of("--move=");
    arg.append(quarantine_dir);
    arg
}

pub open spec fn install_recommendation_en() -> Seq<char> {
    "No antivirus/anti-malware security software was detected on this PC. Please install one — even a free edition is fine (e.g. ClamAV, KINGSOFT Internet Security, or Windows Defender)."@
}

pub open spec fn install_recommendation_ja() -> Seq<char> {
    "このPCにコンピューターウイルス・マルウェア対策のセキュリティソフトが見つかりませんでした。無料版でも良いのでインストールしましょう!(例: ClamAV、キングソフト インターネットセキュリティ、Windows Defenderなど)"@
}

/// The bilingual recommendation shown when no security software is
/// registered: (English, Japanese).
pub fn install_security_software_recommendation() -> (r: (String, String))
    ensures
        r.0@ == install_recommendation_en(),
        r.1@ == install_recommendation_ja(),
{
    (
        string_of(
            "No antivirus/anti-malware security software was detected on this PC. Please install one — even a free edition is fine (e.g. ClamAV, KINGSOFT Internet Security, or Windows Defender).",
        ),
        string_of(
            "このPCにコンピューターウイルス・マルウェア対策のセキュリティソフトが見つかりませんでした。無料版でも良いのでインストールしましょう!(例: ClamAV、キングソフト インターネットセキュリティ、Windows Defenderなど)",
        ),
    )
}

/// Whether the count of antivirus products that Windows Security Center
/// reports (PowerShell's output, a number) shows at least one: the trimmed
/// text read as `str::parse::<u32>` gives a positive number; anything that
/// does not parse counts as none.
pub open spec fn antivirus_count_positive(stdout: Seq<char>) -> bool {
    match parse_u64(trim(stdout)) {
        Some(n) => 0 < n <= u32::MAX,
        None => false,
    }
}

/// Reads the antivirus product count that PowerShell printed (see
/// [`antivirus_count_positive`]).
pub fn has_antivirus_in_count_output(stdout: &str) -> (r: bool)
    ensures
        r == antivirus_count_positive(stdout@),
{
    let v = chars_of(stdout);
    let (a, b) = trim_range(&v, 0, v.len());
    assert(v@.subrange(0, v@.len() as int) =~= stdout@);
    match parse_u64_range(&v, a, b) {
        Some(n) => 0 < n && n <= 0xffff_ffffu64,
        None => false,
    }
}

/// The path of the `Zone.Identifier` alternate data stream of a file (its
/// "Mark of the Web"), given the file's path as text.
pub fn zone_identifier_stream_path(path: &str) -> (p: String)
    ensures
        p@ == path@ + ":Zone.Identifier"@,
{
    let mut p = string_of(path);
    p.append(":Zone.Identifier");
    p
}

/// Whether the Mark of the Web may be removed after a scan with this
/// outcome: only after a clean scan. (A quarantined threat leaves no file
/// to unblock; every other outcome keeps the file blocked.)
pub fn should_unblock_after(outcome: ScanOutcome) -> (r: bool)
    ensures
        r == (outcome == ScanOutcome::Clean),
{
    match outcome {
        ScanOutcome::Clean => true,
        _ => false,
    }
}

#[derive(Debug, Clone)]
pub struct VerifyAndUnblockResult {
    pub scan: ScanResult,
    /// Whether the Mark of the Web was actually removed; only ever `true`
    /// after a clean scan.
    pub unblocked: bool,
}

/// Combines a scan with the result of removing the Mark of the Web (which
/// the caller attempts only when [`should_unblock_after`] allows it): the
/// file counts as unblocked only when the scan was clean and the removal
/// succeeded. Nothing here ever opens or runs the file.
pub fn verify_and_unblock_result(scan: ScanResult, mark_removed: bool) -> (r: VerifyAndUnblockResult)
    ensures
        r.scan == scan,
        r.unblocked == (scan.outcome == ScanOutcome::Clean && mark_removed),
{
    let unblocked = should_unblock_after(scan.outcome) && mark_removed;
    VerifyAndUnblockResult { scan, unblocked }
}

/// A ClamAV run is reported clean only for exit code 0, and never safe when
/// the scanner failed (any exit code other than 0 and 1, or none).
pub proof fn lemma_clamav_clean_only_on_exit_zero(exit_code: Option<i32>, moved: bool)
    ensures
        clamav_outcome(exit_code, moved) == ScanOutcome::Clean <==> exit_code == Some(0i32),
        (exit_code != Some(0i32) && exit_code != Some(1i32)) ==> clamav_outcome(exit_code, moved)
            == ScanOutcome::ScannerUnavailable,
{
}

} // verus!
