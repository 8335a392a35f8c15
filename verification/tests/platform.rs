use dlss_updater::discovery::{
    byte_path_key, deduplicate_roots, discover_epic, discover_gog, discover_steam, drop_repeats,
    epic_game, epic_manifests, epic_manifests_with_errors, installation_id,
    is_missing_registry_error, manual_install, names_item, names_manifest, put_game, quoted_tokens,
    sort_games, steam_game, steam_library_paths, steam_manifests, steam_manifests_with_errors,
    steam_path, steam_steamapps_dirs, unit_path_key, DiscoveryStatus, EpicFile, EpicManifest,
    GogKey, GogKeys, GogView, LibraryRead, ManifestFile, ManifestScan, RegistryError, StoreScan,
    SteamApp, FILE_NOT_FOUND,
};
use dlss_updater::indicator::{
    admit_change, admit_restore, change_result, indicator_state, restore_result, restore_step,
    snapshot_hash, snapshot_state, value_to_write, ChangeStage, IndicatorAction, IndicatorReply,
    NvidiaSystemTools, RegistryRead, RestoreStage, RestoreStep, REG_DWORD,
};
use dlss_updater::inspection::{
    conclude_discovery, gather_stores, inspect_games, managed_dll_entries, scan_game, scan_roots,
    with_inspection, worker_count, RootScan, WalkEntry,
};
use dlss_updater::kinds::is_managed_dll;
use dlss_updater::model::{
    DllInstallation, DllMetadata, DllVersion, FileName, GameId, GameInstall, SignatureStatus,
    StoreKind,
};
use dlss_updater::paths::{FilePath, PathStyle};
use dlss_updater::platform::{
    file_version, helper_ended, helper_parameters, replace_error, shell_execute_error,
    WindowsDllInspector, ACCESS_DENIED, PROMPT_DISMISSED,
};
use dlss_updater::portable::{portable_metadata, ObjectFacts, PortablePeInspector,
    UnavailableTrustVerifier};
use dlss_updater::tools::{
    RegistryValueSnapshot, RegistryView, SystemToolId, SystemToolState, ToolChangePlan,
    ToolChangeResult, ToolRestorePoint, DLSS_INDICATOR_TOOL_ID,
};
use dlss_updater::traits::{capabilities, CoreError, DllInspector, PlatformCapabilities,
    TrustVerifier};
use dlss_updater::trust::{
    needs_fallback, resolve_trust, revocation_unavailable, signature_status, NativeTrustResult,
    RevocationStatus, TrustPolicy, TrustReport, NO_SIGNATURE, REVOCATION_FAILURE,
    REVOCATION_OFFLINE,
};

fn place(text: &str) -> FilePath {
    FilePath::parse(PathStyle::Windows, text)
}

#[test]
fn indicator_values_are_typed_without_destroying_custom_state() {
    assert_eq!(indicator_state(None), SystemToolState::NotConfigured);
    assert_eq!(indicator_state(Some((4, &0u32.to_le_bytes()))), SystemToolState::Off);
    assert_eq!(
        indicator_state(Some((4, &1u32.to_le_bytes()))),
        SystemToolState::DlssIndicatorDebug
    );
    assert_eq!(
        indicator_state(Some((4, &1024u32.to_le_bytes()))),
        SystemToolState::DlssIndicatorProduction
    );
    assert_eq!(
        indicator_state(Some((4, &7u32.to_le_bytes()))),
        SystemToolState::CustomDword(7)
    );
    assert!(matches!(
        indicator_state(Some((1, b"text"))),
        SystemToolState::UnexpectedType { registry_type: 1, .. }
    ));
}

fn snapshot(value: Option<u32>) -> RegistryValueSnapshot {
    RegistryValueSnapshot {
        existed: value.is_some(),
        registry_view: RegistryView::View64,
        registry_type: value.map(|_| REG_DWORD),
        raw: value.map_or(Vec::new(), |number| number.to_le_bytes().to_vec()),
        captured_unix: 5,
    }
}

fn change(desired: SystemToolState, before: &RegistryValueSnapshot) -> ToolChangePlan {
    ToolChangePlan {
        tool_id: SystemToolId::new(DLSS_INDICATOR_TOOL_ID),
        desired,
        restore_point: None,
        expected_current_hash: snapshot_hash(before),
        nonce: "0123456789abcdef".into(),
        result_path: place("/r/0123456789abcdef.json"),
        allow_stale_restore: false,
    }
}

#[test]
fn a_change_of_the_indicator_can_be_taken_back() {
    let before = snapshot(None);
    let plan = change(SystemToolState::DlssIndicatorProduction, &before);
    assert_eq!(admit_change(&plan), Ok(()));
    assert_eq!(value_to_write(&plan, &before), Ok(1024));
    let after = snapshot(Some(1024));
    assert_eq!(snapshot_state(&after), SystemToolState::DlssIndicatorProduction);
    let result = change_result(&plan, before, &after, "1.0.0");
    let point = result.restore_point.unwrap();
    assert_eq!(point.app_version, "1.0.0");
    let now = snapshot_hash(&after);
    assert_eq!(admit_restore(&point, &after, &now, false), Ok(()));
    assert_eq!(restore_step(&point), Ok(RestoreStep::Remove));
    // Somebody else changed it meanwhile.
    let other = snapshot(Some(1));
    assert_eq!(admit_restore(&point, &other, &now, false), Err(CoreError::StalePlan));
    let seen = snapshot_hash(&other);
    assert_eq!(admit_restore(&point, &other, &seen, false), Err(CoreError::StalePlan));
    assert_eq!(admit_restore(&point, &other, &seen, true), Ok(()));
    assert_eq!(restore_result(&point, &snapshot(None)).state, SystemToolState::NotConfigured);
}

/// A registry that holds the value of the indicator, and answers.
fn answer(value: &mut Option<(u32, Vec<u8>)>, action: IndicatorAction) -> IndicatorReply {
    match action {
        IndicatorAction::Read => {
            let read = match value.clone() {
                Some((registry_type, raw)) => RegistryRead::Value { registry_type, raw },
                None => RegistryRead::Failed(RegistryError {
                    code: FILE_NOT_FOUND,
                    text: "gone".into(),
                }),
            };
            return IndicatorReply::Read(NvidiaSystemTools.current_snapshot(read, 5));
        }
        IndicatorAction::Open => {}
        IndicatorAction::WriteNumber { number } => {
            *value = Some((REG_DWORD, number.to_le_bytes().to_vec()));
        }
        IndicatorAction::WriteBytes { registry_type, raw } => *value = Some((registry_type, raw)),
        IndicatorAction::Remove => *value = None,
        IndicatorAction::Rest => unreachable!(),
    }
    IndicatorReply::Done(Ok(()))
}

fn apply(
    value: &mut Option<(u32, Vec<u8>)>,
    plan: &ToolChangePlan,
) -> Result<ToolChangeResult, CoreError> {
    let mut stage = NvidiaSystemTools.begin_apply(plan);
    loop {
        if let ChangeStage::Ended { outcome } = stage {
            return outcome;
        }
        let reply = answer(value, NvidiaSystemTools.apply_action(&stage));
        stage = NvidiaSystemTools.apply(plan, "1.0.0", stage, reply);
    }
}

fn restore(
    value: &mut Option<(u32, Vec<u8>)>,
    point: &ToolRestorePoint,
    expected: &[u8; 32],
) -> Result<ToolChangeResult, CoreError> {
    let mut stage = NvidiaSystemTools.begin_restore(point);
    loop {
        if let RestoreStage::Ended { outcome } = stage {
            return outcome;
        }
        let reply = answer(value, NvidiaSystemTools.restore_action(&stage));
        stage = NvidiaSystemTools.restore(point, expected, false, stage, reply);
    }
}

#[test]
fn the_registry_is_as_it_was_after_a_restore() {
    let earlier = [
        None,
        Some((REG_DWORD, 1_u32.to_le_bytes().to_vec())),
        Some((3, vec![7, 8, 9])),
    ];
    for before in earlier {
        let mut value = before.clone();
        let IndicatorReply::Read(Ok(seen)) = answer(&mut value, IndicatorAction::Read) else {
            panic!("the registry can be read");
        };
        let plan = change(SystemToolState::DlssIndicatorProduction, &seen);
        let changed = apply(&mut value, &plan).unwrap();
        assert_eq!(changed.state, SystemToolState::DlssIndicatorProduction);
        assert_eq!(value, Some((REG_DWORD, 1024_u32.to_le_bytes().to_vec())));
        let point = changed.restore_point.unwrap();
        let restored = restore(&mut value, &point, &point.state_after_hash).unwrap();
        assert_eq!(value, before);
        assert_eq!(restored.state, snapshot_state(&seen));
        assert_eq!(restored.restore_point, None);
        // The plan was made for another value.
        value = Some((REG_DWORD, vec![9, 0, 0, 0]));
        assert_eq!(apply(&mut value, &plan), Err(CoreError::StalePlan));
        assert_eq!(value, Some((REG_DWORD, vec![9, 0, 0, 0])));
    }
}

#[test]
fn a_restore_point_without_a_type_is_refused_once_the_key_is_open() {
    let mut point = ToolRestorePoint {
        tool_id: SystemToolId::new(DLSS_INDICATOR_TOOL_ID),
        snapshot: snapshot(Some(1)),
        state_after_hash: [0; 32],
        app_version: "1.0.0".into(),
    };
    point.snapshot.registry_type = None;
    let refused = |stage: RestoreStage| match stage {
        RestoreStage::Ended { outcome: Err(error) } => error.to_text(),
        other => panic!("{other:?}"),
    };
    let next = |stage, reply| NvidiaSystemTools.restore(&point, &[0; 32], false, stage, reply);
    assert_eq!(
        refused(next(RestoreStage::Opening, IndicatorReply::Done(Ok(())))),
        "validation failed: restore type is missing"
    );
    assert_eq!(
        refused(next(
            RestoreStage::Opening,
            IndicatorReply::Done(Err(CoreError::Validation("denied".into()))),
        )),
        "validation failed: denied"
    );
}

#[test]
fn only_the_indicator_is_read() {
    let read = |id: &str, captured| NvidiaSystemTools.read(&SystemToolId::new(id), captured);
    assert_eq!(
        read(DLSS_INDICATOR_TOOL_ID, Ok(snapshot(Some(1)))),
        Ok(SystemToolState::DlssIndicatorDebug)
    );
    assert_eq!(
        read(DLSS_INDICATOR_TOOL_ID, Err(CoreError::PermissionDenied)),
        Err(CoreError::PermissionDenied)
    );
    assert_eq!(
        read("other", Err(CoreError::PermissionDenied)).unwrap_err().to_text(),
        "validation failed: unknown system tool ID"
    );
}

#[test]
fn a_value_that_cannot_be_read_is_an_error() {
    let failed = |code| RegistryRead::Failed(RegistryError { code, text: "denied".into() });
    assert_eq!(NvidiaSystemTools.current_snapshot(RegistryRead::Closed, 5), Ok(snapshot(None)));
    assert_eq!(NvidiaSystemTools.current_snapshot(failed(FILE_NOT_FOUND), 5), Ok(snapshot(None)));
    assert_eq!(
        NvidiaSystemTools.current_snapshot(failed(5), 5),
        Err(CoreError::Validation("denied".into()))
    );
    assert_eq!(
        NvidiaSystemTools.current_snapshot(
            RegistryRead::Value { registry_type: REG_DWORD, raw: vec![1, 0, 0, 0] },
            5,
        ),
        Ok(snapshot(Some(1)))
    );
}

#[test]
fn the_moment_of_a_snapshot_does_not_matter() {
    let mut later = snapshot(Some(7));
    later.captured_unix = 99;
    assert_eq!(snapshot_hash(&snapshot(Some(7))), snapshot_hash(&later));
    assert_ne!(snapshot_hash(&snapshot(Some(7))), snapshot_hash(&snapshot(Some(8))));
    let mut half = snapshot(Some(7));
    half.registry_view = RegistryView::View32;
    assert_ne!(snapshot_hash(&snapshot(Some(7))), snapshot_hash(&half));
}

#[test]
fn changes_that_cannot_be_made_are_refused() {
    let before = snapshot(Some(0));
    let mut plan = change(SystemToolState::CustomDword(9), &before);
    assert_eq!(
        value_to_write(&plan, &before).unwrap_err().to_text(),
        "validation failed: unsupported indicator state"
    );
    assert_eq!(value_to_write(&plan, &snapshot(Some(3))), Err(CoreError::StalePlan));
    plan.tool_id = SystemToolId::new("other");
    assert_eq!(
        admit_change(&plan).unwrap_err().to_text(),
        "validation failed: unknown system tool ID"
    );
    assert_eq!(NvidiaSystemTools.definitions()[0].id, SystemToolId::new(DLSS_INDICATOR_TOOL_ID));
}

#[test]
fn parses_modern_and_legacy_steam_libraries() {
    let text =
        r#""libraryfolders" { "0" "C:\\Steam" "1" { "path" "D:\\Games" "apps" { "123" "42" } } }"#;
    assert_eq!(
        steam_library_paths(PathStyle::Windows, text),
        [place(r"C:\Steam"), place(r"D:\Games")]
    );
}

fn read(shown: &str, contents: Option<&str>) -> LibraryRead {
    LibraryRead { shown: shown.into(), read: contents.map(|text| Ok(text.to_owned())) }
}

#[test]
fn resolves_both_steam_libraryfolder_locations() {
    let root = place("/steam");
    let (roots, detail) = steam_steamapps_dirs(
        PathStyle::Windows,
        "/steam",
        &vec![
            read("config/libraryfolders.vdf", Some(r#""path" "D:\\Games""#)),
            read("steamapps/libraryfolders.vdf", Some(r#""path" "E:\\Games""#)),
        ],
    );
    assert!(detail.is_none());
    assert!(roots.contains(&root.join("steamapps")));
    assert!(roots.contains(&place(r"D:\Games").join("steamapps")));
    assert!(roots.contains(&place(r"E:\Games").join("steamapps")));
}

#[test]
fn resolves_config_only_steam_libraries() {
    let (roots, detail) = steam_steamapps_dirs(
        PathStyle::Windows,
        "/steam",
        &vec![
            read("config/libraryfolders.vdf", Some(r#""path" "D:\\Games""#)),
            read("steamapps/libraryfolders.vdf", None),
        ],
    );
    assert!(detail.is_none());
    assert!(roots.contains(&place(r"D:\Games").join("steamapps")));
}

#[test]
fn resolves_legacy_only_steam_libraries() {
    let (roots, detail) = steam_steamapps_dirs(
        PathStyle::Windows,
        "/steam",
        &vec![
            read("config/libraryfolders.vdf", None),
            read("steamapps/libraryfolders.vdf", Some(r#""path" "E:\\Games""#)),
        ],
    );
    assert!(detail.is_none());
    assert!(roots.contains(&place(r"E:\Games").join("steamapps")));
}

#[test]
fn reports_when_steam_libraryfolders_are_missing() {
    let root = place("/steam");
    let (roots, detail) = steam_steamapps_dirs(
        PathStyle::Windows,
        "/steam",
        &vec![
            read("config/libraryfolders.vdf", None),
            read("steamapps/libraryfolders.vdf", None),
        ],
    );
    assert_eq!(roots, vec![root.join("steamapps")]);
    assert!(detail.is_some());
}

#[test]
fn a_library_file_that_cannot_be_read_is_named() {
    let unreadable =
        LibraryRead { shown: "config/x.vdf".into(), read: Some(Err("denied".into())) };
    let (_, detail) = steam_steamapps_dirs(PathStyle::Windows, "/steam", &vec![unreadable]);
    assert_eq!(detail.unwrap(), "config/x.vdf: denied");
}

#[test]
fn recognizes_only_supported_names() {
    assert!(is_managed_dll(&FileName::new("nvngx_dlss.dll")));
    assert!(is_managed_dll(&FileName::new("sl.interposer.dll")));
    assert!(is_managed_dll(&FileName::new("NvLowLatencyVk.dll")));
    assert!(!is_managed_dll(&FileName::new("dxgi.dll")));
}

fn epic(name: &str, location: &str, catalog: &str, app: &str) -> EpicManifest {
    EpicManifest {
        display_name: name.into(),
        install_location: location.into(),
        catalog_item_id: catalog.into(),
        app_name: app.into(),
    }
}

fn epic_files() -> Vec<EpicFile> {
    vec![
        EpicFile::Listed {
            name: "bad.item".into(),
            shown: "/epic/bad.item".into(),
            read: Err("expected value at line 1 column 1".into()),
        },
        EpicFile::Listed {
            name: "game.item".into(),
            shown: "/epic/game.item".into(),
            read: Ok(epic("Unicode 游戏", r"D:\Epic\Game", "catalog-id", "game")),
        },
    ]
}

#[test]
fn epic_manifests_skip_malformed_files() {
    let games = epic_manifests(PathStyle::Windows, epic_files());
    assert_eq!(games.len(), 1);
    assert_eq!(games[0].id.0, "epic:catalog-id");
    assert_eq!(games[0].name, "Unicode 游戏");
    let diagnostic = epic_manifests_with_errors(PathStyle::Windows, "/epic", epic_files());
    assert_eq!(diagnostic.items.len(), 1);
    assert_eq!(diagnostic.errors.len(), 1);
}

#[test]
fn epic_manifests_need_a_place_and_an_identity() {
    assert_eq!(epic_game(PathStyle::Windows, epic("n", "", "c", "a")), Err("install location is missing".into()));
    assert_eq!(
        epic_game(PathStyle::Windows, epic("n", "/g", "", "")),
        Err("catalog and app identifiers are missing".into())
    );
    assert_eq!(epic_game(PathStyle::Windows, epic("n", "/g", "", "app")).unwrap().id.0, "epic:app");
    assert!(names_item("x.ITEM"));
    assert!(!names_item(".item"));
    let unlisted = epic_manifests_with_errors(
        PathStyle::Windows,
        "/epic",
        vec![EpicFile::Unlisted { error: "gone".into() }],
    );
    assert_eq!(unlisted.errors, ["/epic: gone"]);
}

fn manifest(name: &str, contents: &str) -> ManifestFile {
    ManifestFile::Listed {
        name: name.into(),
        shown: format!("/apps/{name}"),
        read: Ok(contents.into()),
    }
}

#[test]
fn steam_manifest_failures_are_reported() {
    let apps = place("/apps");
    let missing = steam_manifests_with_errors(
        PathStyle::Windows,
        &apps,
        "/apps/missing",
        &vec![ManifestFile::Unlisted { error: "not found".into() }],
    );
    assert!(missing.items.is_empty());
    assert_eq!(missing.errors.len(), 1);

    let malformed =
        steam_manifests_with_errors(PathStyle::Windows, &apps, "/apps", &vec![manifest("appmanifest_1.acf", "invalid")]);
    assert!(malformed.items.is_empty());
    assert_eq!(malformed.errors.len(), 1);
}

#[test]
fn parses_realistic_steam_appstate_manifest() {
    let apps = place("/apps");
    let contents = r#""AppState"
            {
                "appid" "123456"
                "name" "Example Game"
                "installdir" "ExampleGame"
            }"#;
    let scan = steam_manifests_with_errors(
        PathStyle::Windows,
        &apps,
        "/apps",
        &vec![manifest("appmanifest_123456.acf", contents)],
    );
    assert!(scan.errors.is_empty());
    assert_eq!(scan.items.len(), 1);
    assert_eq!(scan.items[0].app_id, "123456");
    assert_eq!(scan.items[0].title, "Example Game");
    assert_eq!(scan.items[0].root, place("/apps/common/ExampleGame"));
}

#[test]
fn ignores_steamworks_shared_redistributables() {
    let contents = r#""AppState"
            {
                "appid" "228980"
                "name" "Steamworks Common Redistributables"
                "installdir" "Steamworks Shared"
            }"#;
    let scan = steam_manifests_with_errors(
        PathStyle::Windows,
        &place("/apps"),
        "/apps",
        &vec![manifest("appmanifest_228980.acf", contents)],
    );
    assert!(scan.items.is_empty());
    assert!(scan.errors.is_empty());
}

#[test]
fn other_files_are_no_manifests() {
    assert!(names_manifest("appmanifest_1.acf"));
    assert!(!names_manifest("manifest_1.acf"));
    let files = vec![manifest("readme.txt", "anything")];
    assert!(steam_manifests(PathStyle::Windows, &place("/apps"), &files).is_empty());
}

#[test]
fn steam_roots_deduplicate_case_and_separator_variants() {
    let (roots, _) = steam_steamapps_dirs(
        PathStyle::Windows,
        "c:/program files (x86)/steam",
        &vec![read(
            "config/libraryfolders.vdf",
            Some(r#""path" "C:\\Program Files (x86)\\Steam""#),
        )],
    );
    assert_eq!(roots.len(), 1);
}

#[test]
fn steam_directories_are_told_apart_by_their_spelling() {
    let dirs = |root: &str, first: &str, second: &str| {
        let reads = vec![read("config", Some(first)), read("steamapps", Some(second))];
        steam_steamapps_dirs(PathStyle::Windows, root, &reads).0
    };
    // A doubled separator makes another spelling of the same path.
    let found = dirs(r"C:\Steam", r#""path" "D:\\Games""#, r#""path" "D:/x/../Games""#);
    assert_eq!(found.len(), 3);
    let found = dirs(r"C:\Steam", r#""path" "D:\\Games""#, r#""path" "D://Games""#);
    assert_eq!(found.len(), 3);
    assert_eq!(found[1], found[2]);
    // In one file the same path is listed once.
    let found = dirs(r"C:\Steam", r#""path" "D:\\Games" "path" "D://Games""#, "");
    assert_eq!(found, [place(r"C:\Steam\steamapps"), place(r"D:\Games\steamapps")]);
    // A separator at the end is not doubled, and a drive alone gets none.
    let found = dirs(r"C:\Steam\", r#""path" "D:""#, r#""path" "d:/Games/""#);
    assert_eq!(
        found,
        [place(r"C:\Steam\steamapps"), place("D:steamapps"), place(r"D:\Games\steamapps")]
    );
}

#[test]
fn quotes_and_backslashes_are_unescaped() {
    assert_eq!(quoted_tokens(r#""a\"b" { "c" }"#), [r#"a"b"#, "c"]);
    assert_eq!(
        deduplicate_roots(vec![
            place("/a"),
            place("/b"),
            place("/a/"),
        ]),
        [place("/a"), place("/b")]
    );
}

#[test]
fn manual_id_uses_canonical_path() {
    let root = place("/tmp/game");
    let game = manual_install(root.clone(), &byte_path_key(b"/tmp/game"));
    assert!(game.id.0.starts_with("manual:"));
    assert_eq!(game.root, root);
    assert_eq!(game.name, "game");
    assert_eq!(manual_install(place("/"), "2f").name, "Manual game");
}

/// Reports the last byte of the path's key as the hash, so that a test can tell
/// which game's DLL a result came from.
struct MarkerInspector;

impl DllInspector for MarkerInspector {
    fn inspect(&self, path: &FilePath) -> Result<DllMetadata, CoreError> {
        let number = path.text.trim_start_matches("/game-").split('/').next().unwrap();
        let mut sha256 = [0_u8; 32];
        sha256[0] = number
            .parse()
            .map_err(|_| CoreError::Validation("no marker".into()))?;
        Ok(DllMetadata {
            version: None,
            sha256,
            signature: SignatureStatus::Unavailable,
            x86_64: true,
        })
    }
}

fn walked(root: &str) -> Vec<WalkEntry> {
    vec![
        WalkEntry::Other,
        WalkEntry::File {
            path: place(&format!("{root}/bin/nvngx_dlss.dll")),
            name: FileName::new("nvngx_dlss.dll"),
            key: byte_path_key(b"bin/nvngx_dlss.dll"),
        },
        WalkEntry::File {
            path: place(&format!("{root}/readme.txt")),
            name: FileName::new("readme.txt"),
            key: byte_path_key(b"readme.txt"),
        },
    ]
}

fn game(id: &str, name: &str, root: &str) -> GameInstall {
    GameInstall {
        id: GameId::new(id),
        name: name.into(),
        store: StoreKind::Manual,
        root: place(root),
        dlls: Vec::new(),
        inspection_errors: 0,
    }
}

#[test]
fn parallel_inspection_keeps_every_result_with_its_own_game() {
    let games: Vec<GameInstall> = (0..24_u8)
        .map(|index| {
            game(
                &format!("test:{index}"),
                &format!("Game {index}"),
                &format!("/game-{index}"),
            )
        })
        .collect();

    // The threads deliver in whatever order they finish.
    let outcomes = (0..24_usize)
        .rev()
        .map(|index| {
            let entries = walked(&games[index].root.text);
            (index, scan_game(&games[index].id, &entries, &MarkerInspector))
        })
        .collect();
    let games = inspect_games(games, outcomes);

    for (index, game) in games.iter().enumerate() {
        let index = u8::try_from(index).unwrap();
        assert_eq!(game.inspection_errors, 0);
        assert_eq!(game.dlls.len(), 1, "game {index} lost its DLL");
        let dll = &game.dlls[0];
        assert_eq!(dll.game_id, game.id);
        assert!(dll.path.lies_within(&game.root));
        assert!(dll.id.0.starts_with(&format!("{}:", game.id.0)));
        assert_eq!(
            dll.metadata.sha256[0], index,
            "game {index} received another game's inspection"
        );
    }
}

#[test]
fn scan_retains_root_traversal_failures() {
    let results = scan_game(
        &GameId("manual:test".into()),
        &vec![WalkEntry::Failed("no such directory".into())],
        &MarkerInspector,
    );
    assert_eq!(results.len(), 1);
    assert!(results[0].is_err());
}

#[test]
fn managed_dlls_are_identified_by_game_and_place() {
    let found = managed_dll_entries(&GameId::new("g"), &walked("/game-1"));
    assert_eq!(found.len(), 1);
    let dll = found[0].as_ref().unwrap();
    assert_eq!(
        dll.id,
        installation_id(&GameId::new("g"), &byte_path_key(b"bin/nvngx_dlss.dll"))
    );
    assert_eq!(dll.file_name, FileName::new("nvngx_dlss.dll"));
}

#[test]
fn manual_ids_do_not_collapse_non_utf8_paths() {
    let first = manual_install(place("/tmp/\0dcff"), &byte_path_key(b"/tmp/\xff"));
    let second = manual_install(place("/tmp/\0dcfe"), &byte_path_key(b"/tmp/\xfe"));
    assert_ne!(first.id, second.id);
    assert_eq!(first.name, "\u{fffd}");
    assert_eq!(unit_path_key(&[0x61, 0xd800]), "0061d800");
}

#[test]
fn threads_are_kept_to_a_handful() {
    assert_eq!(worker_count(Some(64), 100), 8);
    assert_eq!(worker_count(Some(2), 100), 2);
    assert_eq!(worker_count(None, 100), 4);
    assert_eq!(worker_count(Some(8), 3), 3);
    assert_eq!(worker_count(Some(8), 0), 1);
}

fn failed() -> Result<DllInstallation, CoreError> {
    Err(CoreError::StalePlan)
}

#[test]
fn added_folders_take_the_place_of_what_was_found_there() {
    let (games, warnings) = scan_roots(
        Ok(vec![game("a", "zeta", "/z"), game("b", "Beta", "/b")]),
        vec![
            RootScan {
                root: "/b".into(),
                found: Ok((game("b", "Better", "/b"), vec![failed()])),
            },
            RootScan { root: "/gone".into(), found: Err(CoreError::Cancelled) },
            RootScan { root: "/n".into(), found: Ok((game("c", "alpha", "/n"), Vec::new())) },
        ],
    );
    let names: Vec<&str> = games.iter().map(|game| game.name.as_str()).collect();
    assert_eq!(names, ["alpha", "Better", "zeta"]);
    assert_eq!(games[1].inspection_errors, 1);
    assert_eq!(
        warnings,
        [
            "Better: stale operation plan",
            "Could not scan /gone: operation was cancelled"
        ]
    );
}

#[test]
fn failed_discovery_is_told_and_does_not_stop_the_scan() {
    let (games, warnings) = scan_roots(Err(CoreError::StalePlan), Vec::new());
    assert!(games.is_empty());
    assert_eq!(warnings, ["Automatic game discovery failed: stale operation plan"]);
}

#[test]
fn stores_are_gathered_sorted_and_listed_once() {
    let store = |games: Vec<GameInstall>| StoreScan {
        games,
        empty_status: DiscoveryStatus::NotDetected,
        detail: None,
    };
    let (games, reports) = gather_stores(
        store(vec![game("1", "b", "/1")]),
        store(vec![game("2", "A", "/2"), game("2", "a", "/3")]),
        store(Vec::new()),
    );
    assert_eq!(reports[0].store, "Steam");
    assert_eq!(reports[1].games_found, 2);
    assert_eq!(reports[2].status, DiscoveryStatus::NotDetected);
    let outcome = conclude_discovery(games, reports);
    let roots: Vec<&str> = outcome.games.iter().map(|game| game.root.text.as_str()).collect();
    assert_eq!(roots, ["/2", "/1"]);
    assert_eq!(outcome.reports.len(), 3);
}

#[test]
fn games_are_sorted_and_put_in_place() {
    let mut games = vec![game("1", "b", "/1"), game("2", "Ä", "/2"), game("3", "ä", "/3")];
    let sorted = sort_games(&games);
    let ids: Vec<&str> = sorted.iter().map(|game| game.id.0.as_str()).collect();
    assert_eq!(ids, ["1", "2", "3"]);
    put_game(&mut games, game("2", "new", "/2"));
    assert_eq!(games[1].name, "new");
    put_game(&mut games, game("4", "more", "/4"));
    assert_eq!(games.len(), 4);
    assert_eq!(drop_repeats(vec![game("1", "a", "/1"), game("1", "b", "/2")]).len(), 1);
}

#[test]
fn an_inspection_counts_what_failed() {
    let fresh = with_inspection(game("1", "a", "/1"), vec![failed(), failed()]);
    assert_eq!(fresh.inspection_errors, 2);
    assert!(fresh.dlls.is_empty());
}

fn registry_error(code: i32) -> RegistryError {
    RegistryError { code, text: "why".into() }
}

#[test]
fn steam_is_looked_for_in_two_places() {
    assert_eq!(
        steam_path(Ok("user".into()), Err(registry_error(1))),
        Ok("user".to_owned())
    );
    assert_eq!(
        steam_path(Err(registry_error(1)), Ok("machine".into())),
        Ok("machine".to_owned())
    );
    let gone =
        steam_path(Err(registry_error(FILE_NOT_FOUND)), Err(registry_error(FILE_NOT_FOUND)))
            .unwrap_err();
    assert_eq!(gone.empty_status, DiscoveryStatus::NotDetected);
    assert_eq!(gone.detail.as_deref(), Some("registry key missing (HKCU and HKLM)"));
    let broken =
        steam_path(Err(registry_error(1)), Err(registry_error(FILE_NOT_FOUND))).unwrap_err();
    assert_eq!(broken.empty_status, DiscoveryStatus::Error);
    assert_eq!(broken.detail.as_deref(), Some("HKCU: why"));
    assert!(is_missing_registry_error(FILE_NOT_FOUND));
    assert!(!is_missing_registry_error(0));
}

#[test]
fn a_store_report_says_what_was_found() {
    let app = || SteamApp {
        app_id: "1".into(),
        title: "One".into(),
        root: place("/steam/common/One"),
    };
    assert_eq!(steam_game(app()).id.0, "steam:1");
    let scan = discover_steam(
        vec![ManifestScan { items: vec![app()], errors: vec!["odd".into()] }],
        None,
    );
    assert_eq!(scan.games.len(), 1);
    assert_eq!(scan.report("Steam").status, DiscoveryStatus::Found);
    let epic = discover_epic(Ok("/epic".into()), None);
    assert_eq!(epic.report("Epic").status, DiscoveryStatus::NotDetected);
    assert_eq!(epic.detail.as_deref(), Some("manifest directory not found: /epic"));
}

#[test]
fn gog_keys_give_games() {
    let key = |name: &str, path: Result<&str, &str>| GogKey {
        name: name.into(),
        fault: None,
        path: path.map(str::to_owned).map_err(str::to_owned),
        game_id: None,
        game_name: Some("Witcher".into()),
    };
    let scan = discover_gog(&vec![
        GogView { kind: RegistryView::View32, keys: GogKeys::Closed(registry_error(FILE_NOT_FOUND)) },
        GogView {
            kind: RegistryView::View64,
            keys: GogKeys::Listed(vec![key("1", Ok("/gog/w")), key("2", Err("denied"))]),
        },
    ]);
    assert_eq!(scan.games.len(), 1);
    assert_eq!(scan.games[0].id.0, "gog:1");
    assert_eq!(scan.games[0].name, "Witcher");
    assert!(scan.detail.unwrap().contains("View64/2/path: denied"));
}

fn native(status: i32, signer: Option<&str>) -> NativeTrustResult {
    NativeTrustResult {
        status,
        signer: signer.map(str::to_owned),
        reason: "test trust failure".into(),
    }
}

#[test]
fn strict_trust_requires_revocation_success() {
    let report = resolve_trust(
        TrustPolicy::Strict,
        native(0, Some("NVIDIA Corporation")),
        None,
    );
    assert_eq!(report.signature, SignatureStatus::Trusted);
    assert_eq!(report.revocation, RevocationStatus::Verified);
}

#[test]
fn only_offline_revocation_for_official_nvidia_can_fallback() {
    let offline = REVOCATION_OFFLINE;
    let accepted = resolve_trust(
        TrustPolicy::OfficialNvidiaCatalog,
        native(offline, None),
        Some(native(0, Some("NVIDIA Corporation"))),
    );
    assert_eq!(accepted.signature, SignatureStatus::Trusted);
    assert_eq!(accepted.revocation, RevocationStatus::UnavailableFallback);
    assert_eq!(accepted.native_failure.unwrap().status, offline);

    let wrong_signer = resolve_trust(
        TrustPolicy::OfficialNvidiaCatalog,
        native(offline, None),
        Some(native(0, Some("Example Publisher"))),
    );
    assert_ne!(wrong_signer.revocation, RevocationStatus::UnavailableFallback);

    let strict = resolve_trust(
        TrustPolicy::Strict,
        native(offline, None),
        Some(native(0, Some("NVIDIA Corporation"))),
    );
    assert_eq!(strict.signature, SignatureStatus::Untrusted);
}

#[test]
fn non_revocation_trust_failures_never_fallback() {
    for status in [
        0x8009_6010_u32 as i32, // TRUST_E_BAD_DIGEST
        0x800B_0101_u32 as i32, // CERT_E_EXPIRED
        0x800B_0109_u32 as i32, // CERT_E_UNTRUSTEDROOT
        0x800B_0111_u32 as i32, // TRUST_E_EXPLICIT_DISTRUST
    ] {
        let report = resolve_trust(
            TrustPolicy::OfficialNvidiaCatalog,
            native(status, Some("NVIDIA Corporation")),
            Some(native(0, Some("NVIDIA Corporation"))),
        );
        assert_eq!(report.signature, SignatureStatus::Untrusted);
        assert_eq!(report.revocation, RevocationStatus::NotVerified);
        assert_eq!(report.native_failure.unwrap().status, status);
    }
}

#[test]
fn native_codes_have_a_meaning() {
    assert_eq!(NO_SIGNATURE, 0x800B_0100_u32 as i32);
    assert_eq!(REVOCATION_OFFLINE, 0x8009_2013_u32 as i32);
    assert_eq!(REVOCATION_FAILURE, 0x800B_010E_u32 as i32);
    assert_eq!(signature_status(NO_SIGNATURE), SignatureStatus::Unsigned);
    assert_eq!(signature_status(0), SignatureStatus::Trusted);
    assert!(revocation_unavailable(REVOCATION_FAILURE));
    assert!(needs_fallback(TrustPolicy::OfficialNvidiaCatalog, REVOCATION_OFFLINE));
    assert!(!needs_fallback(TrustPolicy::Strict, REVOCATION_OFFLINE));
    assert_eq!(ACCESS_DENIED, 0x8007_0005_u32 as i32);
    assert_eq!(PROMPT_DISMISSED, 0x8007_04c7_u32 as i32);
}

#[test]
fn windows_errors_are_told_by_their_code() {
    assert_eq!(replace_error(ACCESS_DENIED, "no".into()), CoreError::PermissionDenied);
    assert_eq!(replace_error(1, "no".into()), CoreError::Validation("no".into()));
    assert_eq!(shell_execute_error(PROMPT_DISMISSED, "no".into()), CoreError::Cancelled);
    assert_eq!(shell_execute_error(1, "no".into()), CoreError::Validation("no".into()));
    assert_eq!(helper_ended(false, false, Ok(())), Err(CoreError::Cancelled));
    assert_eq!(helper_ended(true, false, Ok(())), Ok(()));
    assert_eq!(
        helper_ended(true, true, Ok(())),
        Err(CoreError::Validation("elevated helper wait failed".into()))
    );
    assert_eq!(
        helper_ended(true, false, Err("closed".into())),
        Err(CoreError::Validation("closed".into()))
    );
    assert_eq!(
        helper_parameters("C:\\p.json", &[0xab; 32]),
        format!("--elevated-helper \"C:\\p.json\" {}", "ab".repeat(32))
    );
}

#[test]
fn a_version_resource_holds_four_parts() {
    assert_eq!(file_version(0x0003_0007, 0x000a_0001), DllVersion::new(3, 7, 10, 1));
}

/// The smallest 64-bit PE file with a DLL flag that the reader accepts.
fn pe_dll() -> Vec<u8> {
    let mut bytes = vec![0_u8; 0x40 + 4 + 20 + 240];
    bytes[0] = b'M';
    bytes[1] = b'Z';
    bytes[0x3c] = 0x40;
    bytes[0x40..0x44].copy_from_slice(b"PE\0\0");
    // Machine, no sections, the size of the optional header, the flags.
    bytes[0x44..0x46].copy_from_slice(&0x8664_u16.to_le_bytes());
    bytes[0x54..0x56].copy_from_slice(&240_u16.to_le_bytes());
    bytes[0x56..0x58].copy_from_slice(&0x2022_u16.to_le_bytes());
    // PE32+, and sixteen directories.
    bytes[0x58..0x5a].copy_from_slice(&0x20b_u16.to_le_bytes());
    bytes[0xc4..0xc8].copy_from_slice(&16_u32.to_le_bytes());
    bytes
}

#[test]
fn headers_tell_a_windows_library() {
    let metadata = PortablePeInspector.inspect_bytes(&pe_dll()).unwrap();
    assert!(metadata.x86_64);
    assert_eq!(metadata.version, None);
    assert_eq!(metadata.signature, SignatureStatus::Unavailable);
    assert_eq!(metadata.sha256, dlss_updater::digest::digest_of(&pe_dll()));
    let mut narrow = pe_dll();
    narrow[0x56..0x58].copy_from_slice(&0x0022_u16.to_le_bytes());
    assert!(!PortablePeInspector.inspect_bytes(&narrow).unwrap().x86_64);
    assert!(matches!(
        PortablePeInspector.inspect_bytes(b"not a library"),
        Err(CoreError::Validation(_))
    ));
    let facts = ObjectFacts { portable_executable: true, x86_64: false, dynamic: true };
    assert!(!portable_metadata(Ok(facts), [0; 32]).unwrap().x86_64);
}

fn trusted() -> TrustReport {
    TrustReport {
        signature: SignatureStatus::Trusted,
        signer: Some("NVIDIA Corporation".into()),
        revocation: RevocationStatus::Verified,
        native_failure: None,
    }
}

#[test]
fn windows_adds_the_version_and_the_signature() {
    let version = DllVersion::new(3, 7, 10, 0);
    let metadata = WindowsDllInspector
        .inspect_bytes(&pe_dll(), Ok(Some(version)), Ok(trusted()))
        .unwrap();
    assert_eq!(metadata.version, Some(version));
    assert_eq!(metadata.signature, SignatureStatus::Trusted);
    assert!(metadata.x86_64);
    assert_eq!(
        WindowsDllInspector.inspect_bytes(&pe_dll(), Err(CoreError::StalePlan), Ok(trusted())),
        Err(CoreError::StalePlan)
    );
    assert!(WindowsDllInspector.inspect_bytes(b"junk", Ok(None), Ok(trusted())).is_err());
}

#[test]
fn platforms_say_what_they_can_do() {
    assert!(capabilities().elevation);
    assert!(!PlatformCapabilities::default().atomic_replace);
    let report = UnavailableTrustVerifier
        .verify(&place("/x.dll"), TrustPolicy::Strict)
        .unwrap();
    assert_eq!(report.signature, SignatureStatus::Unavailable);
}
