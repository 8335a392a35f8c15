use dlss_updater::backups::{BackupLoadReport, RejectedBackup};
use dlss_updater::icons;
use dlss_updater::imports::imported_release_id;
use dlss_updater::kinds::DllKind;
use dlss_updater::labels::{
    activity_kind, comparison_label, desired_label, dll_kind_heading, dll_kind_icon, dll_kind_rank,
    file_name_text, friendly_dll_label, plural, progress_label, signature_label, state_label,
    store_label, version_label,
};
use dlss_updater::model::{
    BackupRecord, Comparison, DesiredDll, DllVersion, FileName, ReleaseId, ReleaseState,
    SignatureStatus, StoreKind,
};
use dlss_updater::paths::{FilePath, PathStyle};
use dlss_updater::session::{backup_warning_message, PersistedState};
use dlss_updater::toast::{
    expire, lower_first, notify, operation_summary, Batch, BatchKind, Toast, ToastKind,
    RESULT_TIMEOUT,
};
use dlss_updater::tools::SystemToolState;

fn place(text: &str) -> FilePath {
    FilePath::parse(PathStyle::Windows, text)
}

#[test]
fn tool_and_desired_labels_preserve_custom_meaning() {
    assert_eq!(state_label(&SystemToolState::DlssIndicatorProduction), "Production + debug");
    assert_eq!(state_label(&SystemToolState::CustomDword(77)), "Custom value (77)");
    assert_eq!(
        desired_label(&DesiredDll::Cached { release: ReleaseId("v2".into()), sha256: [0; 32] }),
        "Cached v2"
    );
    assert_eq!(
        desired_label(&DesiredDll::Cached {
            release: ReleaseId(format!("import:{}", "0".repeat(64))),
            sha256: [0; 32],
        }),
        "Imported"
    );
    assert_eq!(signature_label(SignatureStatus::Trusted), "Signed (trusted)");
    assert_eq!(comparison_label(Comparison::Upgrade), "Update available");
}

#[test]
fn persisted_disclaimer_defaults_to_unacknowledged() {
    assert!(!PersistedState::default().disclaimer_acknowledged);
}

#[test]
fn backup_warning_clears_after_clean_retry_report() {
    let warning = backup_warning_message(&BackupLoadReport {
        usable: Vec::new(),
        rejected: Vec::new(),
        offline_revocation_fallbacks: 1,
    });
    assert!(warning.is_some());
    assert!(backup_warning_message(&BackupLoadReport {
        usable: Vec::new(),
        rejected: Vec::new(),
        offline_revocation_fallbacks: 0,
    })
    .is_none());
}

#[test]
fn rejected_backups_are_named() {
    let record = BackupRecord {
        original_path: place("/games/a/nvngx_dlss.dll"),
        content_path: place("/backups/objects/00"),
        sha256: [0; 32],
        version: None,
        created_unix: 1,
    };
    let warning = backup_warning_message(&BackupLoadReport {
        usable: Vec::new(),
        rejected: vec![RejectedBackup {
            record,
            shown: r"C:\games\a\nvngx_dlss.dll".into(),
            reason: "copy hash mismatch".into(),
        }],
        offline_revocation_fallbacks: 0,
    })
    .unwrap();
    assert!(warning.contains("1 backup hidden"));
    assert!(warning.contains(r"C:\games\a\nvngx_dlss.dll: copy hash mismatch"));
}

#[test]
fn summaries_count_dlls_and_games() {
    assert_eq!(operation_summary(false, 1, 0), "Updated 1 DLL");
    assert_eq!(operation_summary(false, 3, 1), "Updated 3 DLLs, 1 failed");
    assert_eq!(operation_summary(true, 2, 0), "Restored 2 DLLs");
    assert_eq!(operation_summary(false, 0, 0), "Nothing needed changing");
    assert_eq!(operation_summary(false, 0, 2), "No DLLs updated, 2 failed");

    let mut single = Batch::new(BatchKind::Update, 1, Some("Control".into()));
    single.changed = 2;
    single.games_changed = 1;
    assert_eq!(single.summary(), "Control: updated 2 DLLs");

    let mut bulk = Batch::new(BatchKind::Update, 3, None);
    bulk.changed = 5;
    bulk.games_changed = 2;
    bulk.failed_games = 1;
    assert_eq!(
        bulk.summary(),
        "Updated 5 DLLs across 2 games. 1 game could not be changed; see the error above"
    );
}

#[test]
fn only_results_expire() {
    let shown = 1_000;
    let toast =
        |kind| Toast { message: String::new(), kind, shown, offers_undo: false };
    let later = shown + RESULT_TIMEOUT;
    assert!(toast(ToastKind::Success).expired(later));
    assert!(toast(ToastKind::Info).expired(later));
    assert!(!toast(ToastKind::Progress).expired(later));
    assert!(!toast(ToastKind::Success).expired(shown));
}

#[test]
fn a_repeated_notice_keeps_its_time() {
    let mut toast = None;
    notify(&mut toast, ToastKind::Info, "Saved".into(), 10);
    notify(&mut toast, ToastKind::Info, "Saved".into(), 500);
    assert_eq!(toast.as_ref().unwrap().shown, 10);
    notify(&mut toast, ToastKind::Success, "Saved".into(), 500);
    assert_eq!(toast.as_ref().unwrap().shown, 500);
    expire(&mut toast, 500 + RESULT_TIMEOUT - 1);
    assert!(toast.is_some());
    expire(&mut toast, 500 + RESULT_TIMEOUT);
    assert!(toast.is_none());
}

#[test]
fn restored_runs_are_worded_as_such() {
    let mut undo = Batch::new(BatchKind::Undo, 2, None);
    assert_eq!(undo.kind.verb_ing(), "Undoing changes in");
    undo.failed = 1;
    assert_eq!(undo.summary(), "No DLLs restored, 1 failed");
    assert_eq!(BatchKind::Update.verb_ing(), "Updating");
}

#[test]
fn the_first_character_is_lowered_whatever_it_is() {
    assert_eq!(lower_first("Updated 1 DLL"), "updated 1 DLL");
    assert_eq!(lower_first("Élan"), "élan");
    // One character can become two.
    assert_eq!(lower_first("İ"), "i\u{307}");
    assert_eq!(lower_first(""), "");
}

#[test]
fn counts_agree_with_their_noun() {
    assert_eq!(plural(0, "game"), "0 games");
    assert_eq!(plural(1, "game"), "1 game");
    assert_eq!(plural(12, "game"), "12 games");
}

#[test]
fn every_tool_state_has_a_wording() {
    assert_eq!(state_label(&SystemToolState::NotConfigured), "Not configured");
    assert_eq!(state_label(&SystemToolState::Off), "Off");
    assert_eq!(state_label(&SystemToolState::DlssIndicatorDebug), "Debug only");
    assert_eq!(
        state_label(&SystemToolState::Unavailable("no driver".into())),
        "Unavailable (no driver)"
    );
}

#[test]
fn downloads_show_their_percentage() {
    assert_eq!(
        progress_label(ReleaseState::Downloading, 1, Some(4)),
        "Downloading official release… 25%"
    );
    assert_eq!(
        progress_label(ReleaseState::Downloading, 1, None),
        "Downloading official release…"
    );
    assert_eq!(
        progress_label(ReleaseState::Downloading, 1, Some(0)),
        "Downloading official release…"
    );
    assert_eq!(
        progress_label(ReleaseState::Downloading, u64::MAX, Some(u64::MAX)),
        "Downloading official release… 1%"
    );
    assert_eq!(progress_label(ReleaseState::Invalid, 0, None), "Release validation failed");
}

#[test]
fn families_have_their_rank_heading_and_icon() {
    assert_eq!(dll_kind_rank(&FileName::new("NVNGX_DLSS.dll")), 0);
    assert_eq!(dll_kind_rank(&FileName::new("sl.common.dll")), 4);
    assert_eq!(dll_kind_rank(&FileName::new("dxgi.dll")), 6);
    assert_eq!(dll_kind_heading(Some(DllKind::ReflexLowLatency)), "NVIDIA Reflex");
    assert_eq!(dll_kind_heading(None), "Other");
    assert_eq!(dll_kind_icon(Some(DllKind::Streamline)), icons::STACK);
    assert_eq!(dll_kind_icon(None), icons::PACKAGE);
    assert_eq!(friendly_dll_label(&FileName::new("dxgi.dll")), "dxgi.dll");
    assert_eq!(friendly_dll_label(&FileName::new("nvngx_dlssg.dll")), "DLSS Frame Generation");
}

#[test]
fn names_that_are_not_text_are_shown_with_a_replacement_character() {
    assert_eq!(file_name_text(&FileName::Other("a\0d800b".into())), "a\u{fffd}b");
    assert_eq!(file_name_text(&FileName::new("plain.dll")), "plain.dll");
}

#[test]
fn versions_stores_and_activities_have_wordings() {
    assert_eq!(version_label(Some(DllVersion::new(3, 7, 10, 0))), "3.7.10.0");
    assert_eq!(version_label(None), "unknown");
    assert_eq!(store_label(StoreKind::Gog), "GOG");
    assert_eq!(activity_kind("restore"), (icons::ARROW_U_UP_LEFT, "Undo"));
    assert_eq!(activity_kind("something"), (icons::INFO, "Change"));
    assert_eq!(
        desired_label(&DesiredDll::Cached {
            release: imported_release_id([7; 32]),
            sha256: [7; 32]
        }),
        "Imported"
    );
}
