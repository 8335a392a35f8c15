use dlss_updater::model::{
    CachedRelease, CatalogDll, Comparison, DesiredDll, DllInstallation, DllInstallationId,
    DllMetadata, DllVersion, FileName, GameId, GameInstall, ReleaseId, ReleaseMetadata,
    ReleaseState, ReleaseValidation, SignatureStatus, StoreKind,
};
use dlss_updater::library::GameRow;
use dlss_updater::paths::{FilePath, PathStyle};
use dlss_updater::profile::TargetProfile;
use dlss_updater::review::{
    apply_label, build_review_rows, can_apply, checked_risk_games, collect_choices, count_checked,
    download_label, group_by_game, order_rows, profile_preview_error_label, review_title,
    set_checked, touches_streamline, ReviewIntent, ReviewRow, ReviewSources,
};

fn place(text: &str) -> FilePath {
    FilePath::parse(PathStyle::Windows, text)
}

#[test]
fn profile_preview_errors_hide_internal_installation_ids() {
    let raw = "desired source is unavailable for DLL installation manual:00610062";
    assert_eq!(
        profile_preview_error_label(raw),
        "Required DLL source is unavailable. Download it or choose another target."
    );
    assert!(!profile_preview_error_label(raw).contains("manual:"));
}

fn risk_row(game_id: &str, risk: Option<&'static str>, checked: bool) -> ReviewRow {
    ReviewRow {
        game_id: GameId::new(game_id),
        game_name: game_id.into(),
        dll_id: DllInstallationId(format!("{game_id}-dll")),
        file_name: FileName::new("nvngx_dlss.dll"),
        installed: None,
        target: None,
        desired: DesiredDll::KeepInstalled,
        comparison: Comparison::Unknown,
        checked,
        known_risk: risk,
    }
}

#[test]
fn rows_keep_game_order_and_list_super_resolution_first() {
    let mut rows =
        vec![risk_row("b", None, true), risk_row("a", None, true), risk_row("b", None, true)];
    rows[0].file_name = FileName::new("nvngx_dlssd.dll");
    rows[2].file_name = FileName::new("nvngx_dlss.dll");
    order_rows(&mut rows);
    let order: Vec<_> =
        rows.iter().map(|row| (row.game_id.0.as_str(), row.file_name.clone())).collect();
    assert_eq!(
        order,
        [
            ("b", FileName::new("nvngx_dlss.dll")),
            ("b", FileName::new("nvngx_dlssd.dll")),
            ("a", FileName::new("nvngx_dlss.dll")),
        ]
    );
}

#[test]
fn rows_group_into_one_run_per_game() {
    let rows = [
        risk_row("a", None, true),
        risk_row("a", None, true),
        risk_row("b", None, false),
        risk_row("c", None, true),
        risk_row("c", None, true),
    ];
    assert_eq!(group_by_game(&rows), [0..2, 2..3, 3..5]);
    assert!(group_by_game(&[]).is_empty());
}

#[test]
fn checked_risk_warnings_are_deduplicated_and_dynamic() {
    let rows = [
        risk_row("fortnite-1", Some("Fortnite"), true),
        risk_row("fortnite-2", Some("Fortnite"), true),
        risk_row("finals", Some("The Finals"), false),
        risk_row("safe", None, true),
    ];
    assert_eq!(checked_risk_games(&rows), ["Fortnite"]);
    assert!(checked_risk_games(&rows[2..]).is_empty());
}

#[test]
fn risk_names_come_in_order() {
    let rows = [
        risk_row("a", Some("The Finals"), true),
        risk_row("b", Some("Fortnite"), true),
        risk_row("c", Some("The Finals"), true),
    ];
    assert_eq!(checked_risk_games(&rows), ["Fortnite", "The Finals"]);
}

#[test]
fn other_preview_errors_are_not_explained() {
    assert_eq!(
        profile_preview_error_label("anything else"),
        "The staged target cannot be applied."
    );
}

#[test]
fn checked_rows_are_counted_and_can_be_set_together() {
    let mut rows =
        vec![risk_row("a", None, false), risk_row("a", None, false), risk_row("b", None, true)];
    assert_eq!(count_checked(&rows), 1);
    set_checked(&mut rows, 0, 2, true);
    assert_eq!(count_checked(&rows), 3);
    set_checked(&mut rows, 0, 3, false);
    assert_eq!(count_checked(&rows), 0);
    assert!(!touches_streamline(&rows));
    rows[1].file_name = FileName::new("sl.common.dll");
    assert!(!touches_streamline(&rows));
    rows[1].checked = true;
    assert!(touches_streamline(&rows));
}

#[test]
fn only_checked_rows_are_asked_for() {
    let mut rows =
        vec![risk_row("b", None, true), risk_row("a", None, true), risk_row("c", None, false)];
    rows[0].desired = DesiredDll::LatestOfficial;
    let choices = collect_choices(&rows);
    let games: Vec<&str> = choices.iter().map(|choice| choice.game_id.0.as_str()).collect();
    assert_eq!(games, ["a", "b"]);
    let of_b = &choices[1].profile;
    assert_eq!(
        of_b.get(&DllInstallationId("b-dll".into())),
        Some(&DesiredDll::LatestOfficial)
    );
    assert_eq!(of_b.get(&DllInstallationId("a-dll".into())), None);
}

#[test]
fn buttons_say_what_they_do() {
    assert_eq!(apply_label(1), "Apply 1 change");
    assert_eq!(can_apply(0, false), Some("Select at least one change"));
    assert_eq!(can_apply(1, true), Some("Wait for the current update to finish"));
    assert_eq!(can_apply(1, false), None);
    assert_eq!(download_label("v2.12.0", false), "Download v2.12.0");
    assert_eq!(download_label("v2.12.0", true), "Try again");
    assert_eq!(review_title(&ReviewIntent::QuickDlss(Vec::new())), "Review DLSS updates");
}

fn installation(name: &str, version: DllVersion, hash: u8) -> DllInstallation {
    DllInstallation {
        id: DllInstallationId(format!("game:{name}")),
        game_id: GameId::new("game"),
        path: place(&format!("/games/game/{name}")),
        file_name: FileName::new(name),
        metadata: DllMetadata {
            version: Some(version),
            sha256: [hash; 32],
            signature: SignatureStatus::Trusted,
            x86_64: true,
        },
    }
}

fn library_with_release() -> (Vec<GameRow>, CachedRelease) {
    let game = GameRow::from_install(GameInstall {
        id: GameId::new("game"),
        name: "Game".into(),
        store: StoreKind::Steam,
        root: place("/games/game"),
        dlls: vec![
            installation("nvngx_dlss.dll", DllVersion::new(2, 0, 0, 0), 1),
            installation("sl.common.dll", DllVersion::new(2, 0, 0, 0), 2),
        ],
        inspection_errors: 0,
    });
    let entry = |name: &str, hash: u8| CatalogDll {
        release: ReleaseId::new("v3"),
        file_name: FileName::new(name),
        version: DllVersion::new(3, 0, 0, 0),
        sha256: [hash; 32],
        source: place(&format!("/cache/{name}")),
    };
    let release = CachedRelease {
        metadata: ReleaseMetadata {
            id: ReleaseId::new("v3"),
            tag: "v3".into(),
            asset_name: "streamline-sdk-v3.zip".into(),
            published_unix: 3,
        },
        state: ReleaseState::Ready,
        dlls: vec![entry("nvngx_dlss.dll", 8), entry("sl.common.dll", 9)],
        validation: ReleaseValidation::Full,
    };
    (vec![game], release)
}

#[test]
fn a_quick_review_pins_the_dlss_family_only() {
    let (games, release) = library_with_release();
    let sources = ReviewSources {
        latest: Some(&release),
        releases: &[],
        imports: &[],
        backups: &[],
        cached: &[],
    };
    let profile = TargetProfile::new();
    let quick = build_review_rows(
        &ReviewIntent::QuickDlss(vec![GameId::new("game")]),
        &games,
        &sources,
        &profile,
    );
    assert!(quick.ready);
    assert_eq!(quick.rows.len(), 1);
    let row = &quick.rows[0];
    assert_eq!(row.file_name, FileName::new("nvngx_dlss.dll"));
    assert_eq!(row.installed, Some(DllVersion::new(2, 0, 0, 0)));
    assert_eq!(row.target, Some(DllVersion::new(3, 0, 0, 0)));
    assert_eq!(
        row.desired,
        DesiredDll::Cached { release: ReleaseId::new("v3"), sha256: [8; 32] }
    );
    assert_eq!(row.comparison, Comparison::Upgrade);
    let all = build_review_rows(
        &ReviewIntent::AllDlls(vec![GameId::new("game")]),
        &games,
        &sources,
        &profile,
    );
    assert_eq!(all.rows.len(), 2);
}

#[test]
fn a_review_waits_for_the_latest_release() {
    let (games, _) = library_with_release();
    let sources =
        ReviewSources { latest: None, releases: &[], imports: &[], backups: &[], cached: &[] };
    let content = build_review_rows(
        &ReviewIntent::QuickDlss(vec![GameId::new("game")]),
        &games,
        &sources,
        &TargetProfile::new(),
    );
    assert!(!content.ready);
    assert!(content.rows.is_empty());
}

#[test]
fn a_staged_choice_without_its_source_is_reported() {
    let (games, release) = library_with_release();
    let sources = ReviewSources {
        latest: Some(&release),
        releases: &[],
        imports: &[],
        backups: &[],
        cached: &[],
    };
    let mut profile = TargetProfile::new();
    profile.insert(
        DllInstallationId::new("game:nvngx_dlss.dll"),
        DesiredDll::Restore { backup_sha256: [5; 32] },
    );
    let content = build_review_rows(
        &ReviewIntent::Profiles(vec![GameId::new("game")]),
        &games,
        &sources,
        &profile,
    );
    assert!(content.rows.is_empty());
    assert_eq!(
        content.errors,
        ["Game: Required DLL source is unavailable. Download it or choose another target."]
    );
}
