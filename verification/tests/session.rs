use dlss_updater::catalog::{CatalogCacheIndex, CatalogSnapshot};
use dlss_updater::controls::{Event, Keys, Surroundings};
use dlss_updater::desk::Desk;
use dlss_updater::discovery::{DiscoveryOutcome, DiscoveryStatus, StoreDiscoveryReport};
use dlss_updater::imports::ImportedDllRecord;
use dlss_updater::latest::{
    carry_over_rows, count_upgrades, latest_catalog, latest_dlss_version, offered_version,
};
use dlss_updater::library::{row_status, GameFilter, GameRow, RowStatus};
use dlss_updater::model::{
    ActivityRecord, BackupRecord, BatchResult, CachedRelease, CatalogDll, Comparison, DesiredDll,
    DllInstallation, DllInstallationId, DllMetadata, DllVersion, FileName, GameId, GameInstall,
    OperationPlan, PlannedSwap, ReleaseId, ReleaseMetadata, ReleaseState, ReleaseValidation,
    SignatureStatus, StoreKind, SwapResult,
};
use dlss_updater::paths::{FilePath, PathStyle};
use dlss_updater::profile::TargetProfile;
use dlss_updater::review::ReviewIntent;
use dlss_updater::screen::{
    lacks_revocation_check, library_summary, release_chip, release_offer, selected_games,
    status_hint, status_text, store_status, undo_label, update_all_games, update_all_hint,
    update_all_label, ReleaseChip, ReleaseOffer, SetupCard, TriState,
};
use dlss_updater::session::{
    append_activity, Page, PersistedState, Session, MAX_ACTIVITY,
};
use dlss_updater::targets::{
    cached_options, can_update, compare_with_latest, game_facts, installed_label, page_of,
    restore_options, selected_label, staged_targets_for,
};
use dlss_updater::toast::ToastKind;
use dlss_updater::tools::{SystemToolState, ToolChangeResult, SystemToolId, DLSS_INDICATOR_TOOL_ID};
use dlss_updater::traits::{capabilities, CoreError};
use dlss_updater::worker::{
    command_name, denied_swaps, elevation_error, execute_game_plan, helper_outcome,
    safe_component, undo_report, Command, UpgradeReport, WorkerError,
};

fn place(text: &str) -> FilePath {
    FilePath::parse(PathStyle::Windows, text)
}

fn installation(name: &str, version: Option<DllVersion>, hash: u8) -> DllInstallation {
    DllInstallation {
        id: DllInstallationId(format!("game:{name}")),
        game_id: GameId::new("game"),
        path: place(&format!("/games/game/{name}")),
        file_name: FileName::new(name),
        metadata: DllMetadata {
            version,
            sha256: [hash; 32],
            signature: SignatureStatus::Trusted,
            x86_64: true,
        },
    }
}

fn old_dll(name: &str) -> DllInstallation {
    installation(name, Some(DllVersion::new(2, 0, 0, 0)), 1)
}

fn game(id: &str, dlls: Vec<DllInstallation>) -> GameInstall {
    GameInstall {
        id: GameId::new(id),
        name: format!("Name of {id}"),
        store: StoreKind::Steam,
        root: place(&format!("/games/{id}")),
        dlls,
        inspection_errors: 0,
    }
}

fn release(tag: &str, state: ReleaseState) -> CachedRelease {
    let entry = |name: &str, hash: u8| CatalogDll {
        release: ReleaseId::new(tag),
        file_name: FileName::new(name),
        version: DllVersion::new(3, 0, 0, 0),
        sha256: [hash; 32],
        source: place(&format!("/cache/{name}")),
    };
    CachedRelease {
        metadata: ReleaseMetadata {
            id: ReleaseId::new(tag),
            tag: tag.into(),
            asset_name: format!("streamline-sdk-{tag}.zip"),
            published_unix: 3,
        },
        state,
        dlls: if state == ReleaseState::Ready {
            vec![entry("nvngx_dlss.dll", 8), entry("sl.common.dll", 9)]
        } else {
            Vec::new()
        },
        validation: ReleaseValidation::Full,
    }
}

fn around() -> Surroundings {
    Surroundings {
        now: 1_000,
        now_unix: 50,
        time: "12:00".into(),
        tools_open: false,
        indicator_hash: None,
    }
}

fn fresh_session() -> Session {
    let mut persisted = PersistedState::default();
    persisted.disclaimer_acknowledged = true;
    Session::new(persisted, capabilities())
}

fn scanned(session: &mut Session, games: Vec<GameInstall>) {
    session.handle_worker_event(
        Event::ScanFinished(Ok(DiscoveryOutcome { games, reports: Vec::new() })),
        &around(),
    );
}

fn with_catalog(session: &mut Session, state: ReleaseState) {
    session.handle_worker_event(
        Event::CatalogFinished(Ok(CatalogSnapshot {
            latest: Some("v3".into()),
            releases: vec![release("v3", state)],
        })),
        &around(),
    );
}

/// A session with one game that can be updated.
fn ready_session() -> Session {
    let mut session = fresh_session();
    scanned(
        &mut session,
        vec![
            game("game", vec![old_dll("nvngx_dlss.dll"), old_dll("sl.common.dll")]),
            game("empty", Vec::new()),
        ],
    );
    with_catalog(&mut session, ReleaseState::Ready);
    session
}

fn report(changed: usize, failed: usize, can_undo: bool) -> UpgradeReport {
    UpgradeReport {
        changed,
        failed,
        release: "v3".into(),
        can_undo,
        warning: None,
        undo_plan: None,
    }
}

fn finished(result: Result<UpgradeReport, WorkerError>) -> Event {
    Event::UpgradeFinished { game_id: GameId::new("game"), game: None, result }
}

#[test]
fn a_scan_counts_what_can_be_upgraded() {
    let session = ready_session();
    assert!(!session.scanning);
    let row = session.games.iter().find(|row| row.id.0 == "game").unwrap();
    assert_eq!(row.upgrades, 2);
    assert_eq!(row.dlss_upgrades, 1);
    assert_eq!(row_status(row, true), RowStatus::UpdateAvailable);
    assert_eq!(library_summary(&session.games, true), "2 games · 1 with NVIDIA DLLs · 1 with DLSS updates");
    assert_eq!(library_summary(&session.games, false), "2 games · 1 with NVIDIA DLLs");
}

#[test]
fn a_failed_scan_is_told() {
    let mut session = fresh_session();
    session.handle_worker_event(
        Event::ScanFinished(Err(WorkerError::State("broken".into()))),
        &around(),
    );
    assert!(!session.scanning);
    assert!(session.last_error.unwrap().contains("invalid worker state: broken"));
}

#[test]
fn a_reviewed_update_runs_to_its_summary() {
    let mut session = ready_session();
    session.open_review(ReviewIntent::QuickDlss(vec![GameId::new("game")]));
    let rows = session.review.take().unwrap().rows;
    assert_eq!(rows.len(), 1);
    let commands = session.apply_review(&rows, 10);
    assert_eq!(commands.len(), 1);
    let Command::ApplyProfile(id, profile) = &commands[0] else {
        panic!("a profile has to be applied");
    };
    assert_eq!(id, &GameId::new("game"));
    assert_eq!(
        profile.get(&DllInstallationId::new("game:nvngx_dlss.dll")),
        Some(&DesiredDll::Cached { release: ReleaseId::new("v3"), sha256: [8; 32] })
    );
    assert!(session.busy());
    assert!(session.apply_review(&rows, 11).is_empty());

    session.handle_worker_event(Event::UpgradeStarted(GameId::new("game")), &around());
    assert_eq!(session.upgrading, Some(GameId::new("game")));
    let next = session.handle_worker_event(finished(Ok(report(1, 0, true))), &around());
    assert_eq!(next, Some(Command::RefreshBackups));
    assert!(!session.busy());
    let toast = session.toast.as_ref().unwrap();
    assert_eq!(toast.kind, ToastKind::Success);
    assert_eq!(toast.message, "Name of game: updated 1 DLL");
    assert!(toast.offers_undo);
    assert_eq!(session.last_change, [GameId::new("game")]);
    assert_eq!(session.persisted.activity.len(), 1);

    let games = std::mem::take(&mut session.last_change);
    assert_eq!(session.start_undo(games, 20), [Command::UndoLast(GameId::new("game"))]);
    // It is being undone already.
    assert!(session.start_undo(vec![GameId::new("game")], 21).is_empty());
}

#[test]
fn a_failed_update_is_no_reason_to_undo() {
    let mut session = ready_session();
    session.open_review(ReviewIntent::QuickDlss(vec![GameId::new("game")]));
    let rows = session.review.take().unwrap().rows;
    session.apply_review(&rows, 10);
    session.handle_worker_event(
        finished(Err(WorkerError::Elevation("elevation was cancelled".into()))),
        &around(),
    );
    assert!(session.last_change.is_empty());
    assert!(session.batch.is_none());
    assert!(session.last_error.is_some());
    assert!(!session.undoable.contains("game"));
}

#[test]
fn a_review_opened_early_is_completed() {
    let mut session = fresh_session();
    scanned(&mut session, vec![game("game", vec![old_dll("nvngx_dlss.dll")])]);
    with_catalog(&mut session, ReleaseState::MetadataOnly);
    session.open_review(ReviewIntent::QuickDlss(vec![GameId::new("game")]));
    assert!(!session.review.as_ref().unwrap().ready);
    let command = session.request_release(&ReleaseId::new("v3"));
    assert_eq!(command, Command::InspectRelease(ReleaseId::new("v3")));
    session.handle_worker_event(
        Event::ReleaseFinished(Ok(release("v3", ReleaseState::Ready))),
        &around(),
    );
    session.complete_review();
    let review = session.review.as_ref().unwrap();
    assert!(review.ready);
    assert_eq!(review.rows.len(), 1);
}

#[test]
fn the_setup_card_leads_to_a_release() {
    let mut session = fresh_session();
    assert_eq!(session.setup_card(), SetupCard::Checking);
    session.handle_worker_event(
        Event::CatalogFinished(Err(WorkerError::State("offline".into()))),
        &around(),
    );
    assert!(matches!(session.setup_card(), SetupCard::Retry { .. }));
    with_catalog(&mut session, ReleaseState::MetadataOnly);
    assert_eq!(
        session.setup_card(),
        SetupCard::Download { label: "Download v3".into(), error: None }
    );
    session.request_release(&ReleaseId::new("v3"));
    assert_eq!(session.setup_card(), SetupCard::InProgress);
    session.handle_worker_event(
        Event::ReleaseProgress {
            id: ReleaseId::new("v3"),
            state: ReleaseState::Validating,
            received: 5,
            total: Some(5),
        },
        &around(),
    );
    assert_eq!(session.release_progress_now(), (ReleaseState::Validating, 5, Some(5)));
    session.handle_worker_event(
        Event::ReleaseFinished(Ok(release("v3", ReleaseState::Ready))),
        &around(),
    );
    assert_eq!(session.setup_card(), SetupCard::Hidden);
}

#[test]
fn imports_are_listed_and_removed() {
    let mut session = fresh_session();
    let record = ImportedDllRecord {
        file_name: FileName::new("nvngx_dlss.dll"),
        version: DllVersion::new(3, 7, 10, 0),
        sha256: [7; 32],
        signer: "NVIDIA Corporation".into(),
        imported_unix: 1,
        content_path: place("/imports/object"),
    };
    session.handle_worker_event(Event::ImportFinished(Ok(record)), &around());
    assert_eq!(session.imports.records.len(), 1);
    session.handle_worker_event(Event::ImportRemoved(Ok([7; 32])), &around());
    assert!(session.imports.records.is_empty());
}

#[test]
fn a_value_that_changed_is_confirmed_first() {
    let mut session = fresh_session();
    session.refresh_tool_state(Ok((SystemToolState::Off, [1; 32])));
    session.staged_tool_state = SystemToolState::DlssIndicatorDebug;
    assert_eq!(
        session.change_indicator(false, [2; 32], SystemToolState::CustomDword(9), 5),
        None
    );
    assert_eq!(session.tool_state, SystemToolState::CustomDword(9));
    assert!(session.tool_error.is_some());
    let command = session.change_indicator(false, [2; 32], SystemToolState::CustomDword(9), 6);
    let Some(Command::ChangeIndicator(request)) = command else {
        panic!("the second request goes through");
    };
    assert_eq!(request.desired, SystemToolState::DlssIndicatorDebug);
    assert_eq!(request.expected_current_hash, [2; 32]);
    assert_eq!(
        session.change_indicator(true, [2; 32], SystemToolState::Off, 7),
        None
    );
    assert_eq!(session.tool_error.as_deref(), Some("no restore point is available"));
    session.handle_worker_event(
        Event::IndicatorFinished(Ok(ToolChangeResult {
            tool_id: SystemToolId::new(DLSS_INDICATOR_TOOL_ID),
            state: SystemToolState::DlssIndicatorDebug,
            restore_point: None,
        })),
        &around(),
    );
    assert_eq!(session.toast.as_ref().unwrap().message, "DLSS indicator: Debug only");
    assert_eq!(session.persisted.activity.last().unwrap().kind, "tool_restore");
    session.stage_tool_state();
    assert_eq!(session.staged_tool_state, SystemToolState::DlssIndicatorDebug);
}

#[test]
fn folders_are_added_once_and_removed_by_their_text() {
    let mut session = fresh_session();
    let folder = place("/games/mine");
    assert_eq!(
        session.add_custom_root(r"C:\games\mine", Ok(folder.clone())),
        Some(Command::AddRoot(folder.clone()))
    );
    session.add_custom_root(r"C:\games\mine", Ok(folder.clone()));
    assert_eq!(session.persisted.custom_roots.len(), 1);
    assert_eq!(session.add_custom_root(r"C:\games\mine", Err("gone".into())), None);
    assert_eq!(session.last_error.as_deref(), Some(r"Could not add C:\games\mine: gone"));
    assert_eq!(session.remove_custom_root(&folder), Command::RemoveRoot(folder));
    assert!(session.persisted.custom_roots.is_empty());
}

#[test]
fn staged_choices_can_be_cleared() {
    let mut session = ready_session();
    let id = DllInstallationId::new("game:nvngx_dlss.dll");
    session.stage(id.clone(), DesiredDll::LatestOfficial);
    session.stage(DllInstallationId::new("other"), DesiredDll::LatestOfficial);
    let details = session.games.iter().find(|row| row.id.0 == "game").unwrap();
    assert_eq!(staged_targets_for(&session.persisted.target_profile, &details.details), 1);
    session.stage(id.clone(), DesiredDll::KeepInstalled);
    assert_eq!(session.persisted.target_profile.get(&id), None);
    session.stage(id.clone(), DesiredDll::LatestOfficial);
    session.clear_game_profile(&GameId::new("game"));
    assert_eq!(session.persisted.target_profile.targets.len(), 1);
}

#[test]
fn keys_belong_to_the_dialog_while_one_is_open() {
    let keys = || Keys { focus_search: false, escape: false, select_all: true, rescan: true };
    let mut session = ready_session();
    session.filter.tab = GameFilter::All;
    assert_eq!(session.handle_shortcuts(keys(), true), None);
    assert!(selected_games(&session.games).is_empty());
    assert_eq!(session.handle_shortcuts(keys(), false), Some(Command::Scan));
    assert_eq!(selected_games(&session.games), [GameId::new("game")]);
    session.page = Page::Game(GameId::new("game"));
    session.handle_shortcuts(
        Keys { focus_search: false, escape: true, select_all: false, rescan: false },
        false,
    );
    assert_eq!(session.page, Page::Library);
    assert_eq!(session.shown().len(), 2);
}

#[test]
fn a_stopped_worker_is_told_once() {
    let mut session = ready_session();
    session.worker_stopped();
    assert_eq!(session.last_error.as_deref(), Some("Background worker stopped unexpectedly"));
    session.last_error = None;
    session.worker_stopped();
    assert_eq!(session.last_error, None);
    session.backups_unreachable();
    assert!(session.backup_warning.is_some());
}

#[test]
fn activities_are_kept_up_to_a_limit() {
    let mut activity: Vec<ActivityRecord> = Vec::new();
    for number in 0..(MAX_ACTIVITY as i64 + 3) {
        append_activity(
            &mut activity,
            ActivityRecord {
                timestamp_unix: number,
                kind: "dll_swap".into(),
                detail: String::new(),
            },
        );
    }
    assert_eq!(activity.len(), MAX_ACTIVITY);
    assert_eq!(activity[0].timestamp_unix, 3);
}

#[test]
fn a_new_scan_keeps_selection_and_last_operation() {
    let mut previous = vec![GameRow::from_install(game("game", vec![old_dll("nvngx_dlss.dll")]))];
    previous[0].selected = true;
    previous[0].last_operation = Some("Updated 1 DLL".into());
    let fresh = vec![
        GameRow::from_install(game("game", vec![old_dll("nvngx_dlss.dll")])),
        GameRow::from_install(game("new", Vec::new())),
    ];
    let rows = carry_over_rows(&previous, fresh);
    assert!(rows[0].selected);
    assert_eq!(rows[0].last_operation.as_deref(), Some("Updated 1 DLL"));
    assert!(!rows[1].selected);
}

#[test]
fn the_latest_release_decides_what_is_offered() {
    let releases = [release("v3", ReleaseState::Ready)];
    let latest = latest_catalog(&releases, &Some("v3".into()));
    assert_eq!(latest.len(), 2);
    assert!(latest_catalog(&releases, &Some("v4".into())).is_empty());
    assert_eq!(latest_dlss_version(&latest), Some(DllVersion::new(3, 0, 0, 0)));
    let dlls = [old_dll("nvngx_dlss.dll"), old_dll("sl.common.dll")];
    assert_eq!(count_upgrades(&dlls, &latest, false), 2);
    assert_eq!(count_upgrades(&dlls, &latest, true), 1);
    let mut row = GameRow::from_install(game("game", vec![old_dll("nvngx_dlss.dll")]));
    row.dlss_upgrades = 1;
    assert_eq!(
        offered_version(&row, Some(DllVersion::new(3, 0, 0, 0))),
        Some(DllVersion::new(3, 0, 0, 0))
    );
}

#[test]
fn a_dll_can_be_exchanged_for_what_is_there() {
    let dll = old_dll("nvngx_dlss.dll");
    let releases = [release("v3", ReleaseState::Ready)];
    let latest = latest_catalog(&releases, &Some("v3".into()));
    assert_eq!(
        compare_with_latest(&dll, &latest),
        (Some(DllVersion::new(3, 0, 0, 0)), Comparison::Upgrade)
    );
    let import = ImportedDllRecord {
        file_name: FileName::new("NVNGX_DLSS.dll"),
        version: DllVersion::new(3, 7, 10, 0),
        sha256: [7; 32],
        signer: "NVIDIA Corporation".into(),
        imported_unix: 1,
        content_path: place("/imports/object"),
    };
    let cached = cached_options(&dll, &releases, &[import]);
    let labels: Vec<&str> = cached.iter().map(|option| option.label.as_str()).collect();
    assert_eq!(labels, ["3.0.0.0 · v3", "Imported 3.7.10.0"]);
    let backup = BackupRecord {
        sha256: [5; 32],
        content_path: place("/backups/objects/05"),
        original_path: dll.path.clone(),
        version: None,
        created_unix: 1,
    };
    let restore = restore_options(&dll, &[backup], &vec!["yesterday".to_owned()]);
    assert_eq!(restore[0].label, "Restore backup Unknown · yesterday");
    assert_eq!(installed_label(&dll), "Keep installed (2.0.0.0)");
    let selected = |desired: DesiredDll| selected_label(&dll, &desired, &cached, &restore, &latest);
    assert_eq!(selected(DesiredDll::LatestOfficial), "3.0.0.0 · Latest official");
    assert_eq!(
        selected(DesiredDll::Cached { release: ReleaseId::new("v3"), sha256: [8; 32] }),
        "3.0.0.0 · v3"
    );
    assert_eq!(
        selected(DesiredDll::Cached { release: ReleaseId::new("v9"), sha256: [8; 32] }),
        "Cached v9"
    );
    assert_eq!(selected(DesiredDll::KeepInstalled), "Keep installed (2.0.0.0)");
}

#[test]
fn a_page_lists_super_resolution_first() {
    let page = page_of(&vec![
        old_dll("sl.common.dll"),
        old_dll("nvngx_dlss.dll"),
        old_dll("nvngx_dlssd.dll"),
    ]);
    let names: Vec<FileName> = page.into_iter().map(|dll| dll.file_name).collect();
    assert_eq!(
        names,
        [
            FileName::new("nvngx_dlss.dll"),
            FileName::new("nvngx_dlssd.dll"),
            FileName::new("sl.common.dll"),
        ]
    );
}

#[test]
fn names_on_a_page_are_in_the_order_of_their_bytes() {
    let named = |file_name: FileName| DllInstallation { file_name, ..old_dll("x.dll") };
    // A stray byte, a stray surrogate, and characters on either side of them.
    let names = || {
        [
            FileName::new("x"),
            FileName::new("x\u{e000}"),
            FileName::Other("x\0d800".into()),
            FileName::new("x\u{10ffff}"),
            FileName::Other("x\000ff".into()),
        ]
    };
    let expected = [0, 2, 1, 3, 4].map(|at| names()[at].clone());
    let page = page_of(&names().into_iter().rev().map(named).collect());
    let sorted: Vec<FileName> = page.into_iter().map(|dll| dll.file_name).collect();
    assert_eq!(sorted, expected);
}

#[test]
fn buttons_explain_why_they_cannot_be_used() {
    let row = GameRow::from_install(game("game", vec![old_dll("nvngx_dlss.dll")]));
    assert_eq!(can_update(&row, true, false), None);
    assert_eq!(can_update(&row, false, false), Some("The release catalog has not loaded yet"));
    assert_eq!(can_update(&row, true, true), Some("Wait for the current update to finish"));
    assert_eq!(game_facts(&row), "· 1 NVIDIA DLL");
    assert_eq!(update_all_label(3, true), "Update DLSS in 3 games");
    assert_eq!(update_all_label(3, false), "Update DLSS");
    assert_eq!(update_all_hint(0, true, true, false), "Every game already has the latest DLSS");
    assert_eq!(undo_label(1), "Undo last update");
    assert_eq!(undo_label(2), "Undo last update (2 games)");
    assert!(update_all_games(&[row], true).is_empty());
}

#[test]
fn rows_say_their_status() {
    let mut row = GameRow::from_install(game("game", vec![old_dll("nvngx_dlss.dll")]));
    row.inspection_errors = 2;
    assert_eq!(status_text(&row, RowStatus::Problem), "2 files unreadable");
    row.dlss_upgrades = 1;
    assert_eq!(
        status_hint(&row, RowStatus::UpdateAvailable),
        "Review 1 DLSS update for this game"
    );
    let store = |status| StoreDiscoveryReport {
        store: "Steam".into(),
        status,
        games_found: 1,
        detail: None,
    };
    assert_eq!(store_status(&store(DiscoveryStatus::Found)), "1 game");
    assert_eq!(store_status(&store(DiscoveryStatus::NotDetected)), "Not installed");
    assert_eq!(store_status(&store(DiscoveryStatus::Error)), "Could not read");
}

#[test]
fn releases_offer_what_can_be_done_with_them() {
    assert_eq!(
        release_chip(&Some("v3".into()), false, false),
        ReleaseChip::NotDownloaded("Streamline v3 · not downloaded".into())
    );
    assert_eq!(release_chip(&None, false, true), ReleaseChip::Checking);
    let ready = release("v3", ReleaseState::Ready);
    assert_eq!(
        release_offer(&ready, true, false, false),
        ReleaseOffer::Remove { status: "Downloaded · 2 DLLs".into() }
    );
    let listed = release("v3", ReleaseState::MetadataOnly);
    assert_eq!(
        release_offer(&listed, true, false, true),
        ReleaseOffer::Download { label: "Retry", failed: true, recommended: false }
    );
    assert_eq!(release_offer(&listed, true, true, false), ReleaseOffer::InProgress);
    let mut offline = release("v3", ReleaseState::Ready);
    offline.validation = ReleaseValidation::RevocationUnavailableFallback;
    assert!(lacks_revocation_check(&offline));
    assert!(!lacks_revocation_check(&ready));
}

#[test]
fn a_box_for_several_shows_how_many() {
    assert_eq!(TriState::of(0, 3), TriState::Nothing);
    assert_eq!(TriState::of(2, 3), TriState::Part);
    assert_eq!(TriState::of(3, 3), TriState::All);
    assert_eq!(TriState::of(0, 0), TriState::Nothing);
    assert!(TriState::Part.click_selects());
    assert!(!TriState::All.click_selects());
}

fn swap(name: &str) -> PlannedSwap {
    PlannedSwap {
        game: GameId::new("game"),
        installation: DllInstallationId::new(name),
        target_path: place(&format!("/games/game/{name}")),
        expected_sha256: [1; 32],
        source_path: place("/cache/new.dll"),
        source_sha256: [8; 32],
        comparison: Comparison::Upgrade,
    }
}

fn swapped(name: &str) -> SwapResult {
    SwapResult {
        installation: DllInstallationId::new(name),
        result: Ok(DllMetadata {
            version: Some(DllVersion::new(3, 0, 0, 0)),
            sha256: [8; 32],
            signature: SignatureStatus::Trusted,
            x86_64: true,
        }),
        backup: Some(BackupRecord {
            sha256: [1; 32],
            content_path: place("/backups/objects/01"),
            original_path: place(&format!("/games/game/{name}")),
            version: None,
            created_unix: 1,
        }),
        denied: false,
    }
}

fn refused(name: &str) -> SwapResult {
    SwapResult {
        installation: DllInstallationId::new(name),
        result: Err("access was denied; elevation is required".into()),
        backup: None,
        denied: true,
    }
}

#[test]
fn the_helper_s_results_take_the_place_of_denied_ones() {
    let plan = OperationPlan { nonce: "n".into(), swaps: vec![swap("a.dll"), swap("b.dll")] };
    let direct = || BatchResult { swaps: vec![swapped("a.dll"), refused("b.dll")] };
    let denied = denied_swaps(&plan, &direct());
    assert_eq!(denied.len(), 1);
    assert_eq!(denied[0].installation, DllInstallationId::new("b.dll"));
    let told = execute_game_plan(
        &plan,
        "v3",
        direct(),
        Some(Ok(BatchResult { swaps: vec![swapped("b.dll")] })),
        "undo",
    );
    assert_eq!((told.changed, told.failed), (2, 0));
    let undo = told.undo_plan.unwrap();
    assert_eq!(undo.nonce, "undo");
    assert_eq!(undo.swaps[0].source_path, place("/backups/objects/01"));
    assert_eq!(undo.swaps[0].source_sha256, [1; 32]);
    assert_eq!(undo.swaps[0].expected_sha256, [8; 32]);
    assert_eq!(undo.swaps[0].comparison, Comparison::Downgrade);
    let told = execute_game_plan(
        &plan,
        "v3",
        direct(),
        Some(Err(WorkerError::Elevation("elevation was cancelled".into()))),
        "undo",
    );
    assert_eq!((told.changed, told.failed), (1, 1));
    assert_eq!(told.warning.as_deref(), Some("elevation failed: elevation was cancelled"));
    assert_eq!(undo_report(&direct()).release, "Undo");
}

#[test]
fn the_helper_s_answers_are_told_apart() {
    assert_eq!(helper_outcome(Ok(Ok(5))), Ok(5));
    assert_eq!(
        helper_outcome::<u32>(Ok(Err("no".into()))).unwrap_err().to_text(),
        "elevation failed: the elevated helper rejected the plan: no"
    );
    assert_eq!(
        helper_outcome::<u32>(Err(CoreError::StalePlan)).unwrap_err().to_text(),
        "elevation failed: the elevated helper did not report a result: stale operation plan"
    );
    assert_eq!(
        elevation_error(CoreError::Cancelled),
        WorkerError::Elevation("elevation was cancelled".into())
    );
    assert!(safe_component("v2.12.0").is_ok());
    assert!(safe_component("").is_err());
    assert!(safe_component("../x").is_err());
    assert_eq!(command_name(&Command::RefreshBackups), "refresh_backups");
}

#[test]
fn an_undo_plan_can_be_taken_once() {
    let mut desk = Desk::new(Vec::new(), CatalogCacheIndex::new());
    desk.games.push(game("game", Vec::new()));
    let mut fresh = game("game", vec![old_dll("nvngx_dlss.dll")]);
    fresh.inspection_errors = 2;
    let mut told = report(1, 0, true);
    told.undo_plan = Some(OperationPlan { nonce: "u".into(), swaps: vec![swap("a.dll")] });
    let warning = desk.finish_operation(&GameId::new("game"), &fresh, &Ok(told));
    assert_eq!(
        warning.as_deref(),
        Some("The operation finished, but 2 DLL or traversal entries could not be inspected")
    );
    assert_eq!(desk.games[0].dlls.len(), 1);
    assert_eq!(desk.take_undo_plan(&GameId::new("game")).unwrap().nonce, "u");
    assert_eq!(
        desk.take_undo_plan(&GameId::new("game")).unwrap_err(),
        WorkerError::State("the immediate undo plan is no longer available".into())
    );
}

#[test]
fn the_desk_keeps_each_folder_once() {
    let mut desk = Desk::new(Vec::new(), CatalogCacheIndex::new());
    let folder = place("/games/mine");
    assert_eq!(desk.add_root(r"C:\games\mine", Ok(folder.clone())), None);
    assert_eq!(desk.add_root(r"C:\games\mine", Ok(folder.clone())), None);
    assert_eq!(desk.roots.len(), 1);
    assert_eq!(
        desk.add_root(r"C:\games\mine", Err("gone".into())).as_deref(),
        Some(r"Could not add game folder C:\games\mine: gone")
    );
    desk.remove_root(&folder);
    assert!(desk.roots.is_empty());
}

#[test]
fn profiles_keep_one_choice_for_each_dll() {
    let mut profile = TargetProfile::new();
    let id = |name: &str| DllInstallationId::new(name);
    profile.insert(id("b"), DesiredDll::LatestOfficial);
    profile.insert(id("a"), DesiredDll::LatestOfficial);
    profile.insert(id("b"), DesiredDll::Restore { backup_sha256: [1; 32] });
    assert_eq!(profile.targets.len(), 2);
    assert_eq!(profile.get(&id("b")), Some(&DesiredDll::Restore { backup_sha256: [1; 32] }));
    let part = profile.part(&[id("b")], true);
    assert_eq!(part.targets.len(), 1);
    assert_eq!(part.get(&id("a")), None);
    assert_eq!(profile.part(&[id("b")], false).get(&id("b")), None);
    profile.remove(&id("b"));
    assert_eq!(profile.get(&id("b")), None);
}
