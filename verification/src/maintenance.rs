//! The start-up / periodic maintenance report: whether security software is
//! registered, and whether ClamAV's `freshclam` updated the virus
//! definitions (reported as unavailable when it is missing or failed, never
//! as up to date). Running the checks and scheduling them is left to the
//! caller.

use vstd::prelude::*;
use vstd::string::StringExecFns;

use crate::download_protection::{
    install_recommendation_en, install_recommendation_ja, install_security_software_recommendation,
};

verus! {

#[derive(Debug, Clone, Copy, PartialEq, Eq, Structural)]
pub enum DefinitionsUpdateOutcome {
    /// `freshclam` ran and exited successfully.
    Updated,
    /// `freshclam` was not found or failed.
    DefinitionsUpdateUnavailable,
}

#[derive(Debug, Clone)]
pub struct MaintenanceReport {
    pub antivirus_registered: bool,
    pub definitions_update: DefinitionsUpdateOutcome,
    pub summary_en: String,
    pub summary_ja: String,
}

/// The outcome of a definitions update: updated only when `freshclam` was
/// found and exited successfully.
pub fn definitions_update_outcome(freshclam_found: bool, exited_successfully: bool) -> (o:
    DefinitionsUpdateOutcome)
    ensures
        o == (if freshclam_found && exited_successfully {
            DefinitionsUpdateOutcome::Updated
        } else {
            DefinitionsUpdateOutcome::DefinitionsUpdateUnavailable
        }),
{
    if freshclam_found && exited_successfully {
        DefinitionsUpdateOutcome::Updated
    } else {
        DefinitionsUpdateOutcome::DefinitionsUpdateUnavailable
    }
}

pub open spec fn maintenance_summary_en(
    antivirus_registered: bool,
    update: DefinitionsUpdateOutcome,
) -> Seq<char> {
    (if antivirus_registered {
        "Security software is registered with Windows Security Center. "@
    } else {
        install_recommendation_en() + " "@
    }) + (if update == DefinitionsUpdateOutcome::Updated {
        "ClamAV virus definitions are up to date."@
    } else {
        "ClamAV virus definitions could not be updated (freshclam not found or failed)."@
    })
}

pub open spec fn maintenance_summary_ja(
    antivirus_registered: bool,
    update: DefinitionsUpdateOutcome,
) -> Seq<char> {
    (if antivirus_registered {
        "セキュリティソフトはWindows セキュリティセンターに登録されています。"@
    } else {
        install_recommendation_ja()
    }) + (if update == DefinitionsUpdateOutcome::Updated {
        "ClamAVのウイルス定義は最新です。"@
    } else {
        "ClamAVのウイルス定義を更新できませんでした(freshclamが見つからない、または失敗しました)。"@
    })
}

/// The maintenance report for the results of the two checks.
pub fn build_maintenance_report(
    antivirus_registered: bool,
    definitions_update: DefinitionsUpdateOutcome,
) -> (r: MaintenanceReport)
    ensures
        r.antivirus_registered == antivirus_registered,
        r.definitions_update == definitions_update,
        r.summary_en@ == maintenance_summary_en(antivirus_registered, definitions_update),
        r.summary_ja@ == maintenance_summary_ja(antivirus_registered, definitions_update),
{
    let mut summary_en = String::new();
    let mut summary_ja = String::new();
    if antivirus_registered {
        summary_en.append("Security software is registered with Windows Security Center. ");
        summary_ja.append("セキュリティソフトはWindows セキュリティセンターに登録されています。");
    } else {
        let (en, ja) = install_security_software_recommendation();
        summary_en.append(en.as_str());
        summary_en.append(" ");
        summary_ja.append(ja.as_str());
    }
    match definitions_update {
        DefinitionsUpdateOutcome::Updated => {
            summary_en.append("ClamAV virus definitions are up to date.");
            summary_ja.append("ClamAVのウイルス定義は最新です。");
        },
        DefinitionsUpdateOutcome::DefinitionsUpdateUnavailable => {
            summary_en.append(
                "ClamAV virus definitions could not be updated (freshclam not found or failed).",
            );
            summary_ja.append(
                "ClamAVのウイルス定義を更新できませんでした(freshclamが見つからない、または失敗しました)。",
            );
        },
    }
    proof {
        assert(Seq::<char>::empty() + "Security software is registered with Windows Security Center. "@
            =~= "Security software is registered with Windows Security Center. "@);
    }
    MaintenanceReport { antivirus_registered, definitions_update, summary_en, summary_ja }
}

/// Both summaries of every report are non-empty.
pub proof fn lemma_maintenance_summaries_non_empty(
    antivirus_registered: bool,
    update: DefinitionsUpdateOutcome,
)
    ensures
        maintenance_summary_en(antivirus_registered, update).len() > 0,
        maintenance_summary_ja(antivirus_registered, update).len() > 0,
{
    reveal_strlit("ClamAV virus definitions are up to date.");
    reveal_strlit(
        "ClamAV virus definitions could not be updated (freshclam not found or failed).",
    );
    reveal_strlit("ClamAVのウイルス定義は最新です。");
    reveal_strlit(
        "ClamAVのウイルス定義を更新できませんでした(freshclamが見つからない、または失敗しました)。",
    );
}

} // verus!
