use dlss_updater::discovery::{has_discovery_errors, DiscoveryStatus, StoreDiscoveryReport};
use dlss_updater::icons;
use dlss_updater::library::{
    apply_toggle, contains_game, empty_filter_message, filtered_game_rows, matches_search_and_store,
    matches_tab, next_sort, offers_tab, row_status, selection_range, set_selection, sort_hint,
    sort_marker, sort_rows, staged_games, tab_counts, tab_label, visible_rows, widen, GameFilter,
    GameRow, GameSort, LibraryFilter, RowStatus, SortKey, StoreFilter, Toggle,
};
use dlss_updater::model::{
    DesiredDll, DllInstallation, DllInstallationId, DllMetadata, DllVersion, FileName, GameId,
    GameInstall, SignatureStatus, StoreKind,
};
use dlss_updater::paths::{FilePath, PathStyle};
use dlss_updater::profile::TargetProfile;

fn place(text: &str) -> FilePath {
    FilePath::parse(PathStyle::Windows, text)
}

fn installation(name: &str, version: DllVersion) -> DllInstallation {
    DllInstallation {
        id: DllInstallationId(name.into()),
        game_id: GameId("game".into()),
        path: place(name),
        file_name: FileName::new(name),
        metadata: DllMetadata {
            version: Some(version),
            sha256: [0; 32],
            signature: SignatureStatus::Trusted,
            x86_64: true,
        },
    }
}

fn row(
    name: &str,
    store: &'static str,
    dlls: usize,
    version: Option<DllVersion>,
    upgrades: usize,
) -> GameRow {
    GameRow {
        id: GameId(name.into()),
        selected: false,
        name: name.into(),
        store,
        store_kind: StoreKind::Manual,
        root: place("."),
        dlls,
        dlss_version: version,
        dlss_upgrades: 0,
        upgrades,
        has_unknown: false,
        last_operation: None,
        details: Vec::new(),
        inspection_errors: 0,
        known_risk: None,
    }
}

fn names_for(games: &[GameRow], key: SortKey, ascending: bool) -> Vec<String> {
    let mut rows: Vec<usize> = (0..games.len()).collect();
    sort_rows(&mut rows, games, GameSort { key, ascending }, true);
    rows.into_iter().map(|index| games[index].name.clone()).collect()
}

#[test]
fn game_row_uses_only_the_highest_super_resolution_version() {
    let older = DllVersion::new(2, 5, 0, 0);
    let newer = DllVersion::new(3, 7, 10, 0);
    let game = GameInstall {
        id: GameId("game".into()),
        name: "Game".into(),
        store: StoreKind::Manual,
        root: place("."),
        dlls: vec![
            installation("nvngx_dlss.dll", older),
            installation("NVNGX_DLSS.DLL", newer),
            installation("nvngx_dlssg.dll", DllVersion::new(9, 0, 0, 0)),
        ],
        inspection_errors: 0,
    };
    assert_eq!(GameRow::from_install(game).dlss_version, Some(newer));
}

#[test]
fn tabs_split_the_library_by_what_needs_doing() {
    let mut update = row("Update", "Steam", 2, None, 1);
    update.dlss_upgrades = 1;
    let mut broken = row("Broken", "Steam", 1, None, 0);
    broken.has_unknown = true;
    let mut changed = row("Changed", "Steam", 1, None, 0);
    changed.last_operation = Some("Updated 1 DLL".into());
    let empty = row("Empty", "Steam", 0, None, 0);
    let staged = [changed.id.clone()];
    let games = [update, broken, changed, empty];

    let names = |tab| -> Vec<&str> {
        games
            .iter()
            .filter(|game| matches_tab(game, tab, &staged))
            .map(|game| game.name.as_str())
            .collect()
    };
    assert_eq!(names(GameFilter::Updates), ["Update"]);
    assert_eq!(names(GameFilter::WithDlls), ["Update", "Broken", "Changed"]);
    let mut unreadable = row("Unreadable", "Steam", 0, None, 0);
    unreadable.inspection_errors = 2;
    assert!(matches_tab(&unreadable, GameFilter::WithDlls, &staged));
    assert_eq!(names(GameFilter::All).len(), 4);
    assert_eq!(names(GameFilter::Problems), ["Broken"]);
    assert_eq!(names(GameFilter::Staged), ["Changed"]);
    assert_eq!(names(GameFilter::Recent), ["Changed"]);
}

#[test]
fn only_unreadable_stores_raise_the_folder_warning() {
    let report = |status| StoreDiscoveryReport {
        store: "Steam".into(),
        status,
        games_found: 0,
        detail: None,
    };
    // A store that is simply not installed is normal, not a warning.
    assert!(!has_discovery_errors(&[report(DiscoveryStatus::NotDetected)]));
    assert!(has_discovery_errors(&[
        report(DiscoveryStatus::Found),
        report(DiscoveryStatus::Error),
    ]));
}

#[test]
fn sorts_every_table_column() {
    let mut alpha = row("alpha", "Epic", 1, Some(DllVersion::new(2, 0, 0, 0)), 4);
    alpha.dlss_upgrades = 1;
    let games = [
        row("Zulu", "Steam", 3, Some(DllVersion::new(3, 0, 0, 0)), 0),
        alpha,
    ];
    assert_eq!(names_for(&games, SortKey::Name, true), ["alpha", "Zulu"]);
    assert_eq!(names_for(&games, SortKey::Name, false), ["Zulu", "alpha"]);
    assert_eq!(names_for(&games, SortKey::Store, true), ["alpha", "Zulu"]);
    assert_eq!(names_for(&games, SortKey::Dlls, true), ["alpha", "Zulu"]);
    assert_eq!(names_for(&games, SortKey::DlssVersion, false), ["Zulu", "alpha"]);
    assert_eq!(names_for(&games, SortKey::Status, true), ["alpha", "Zulu"]);
    assert_eq!(names_for(&games, SortKey::Status, false), ["Zulu", "alpha"]);
}

#[test]
fn missing_dlss_versions_sort_last_in_both_directions() {
    let games = [
        row("Missing", "Manual", 0, None, 0),
        row("Old", "Manual", 1, Some(DllVersion::new(2, 0, 0, 0)), 0),
        row("New", "Manual", 1, Some(DllVersion::new(3, 0, 0, 0)), 0),
    ];
    assert_eq!(names_for(&games, SortKey::DlssVersion, true), ["Old", "New", "Missing"]);
    assert_eq!(names_for(&games, SortKey::DlssVersion, false), ["New", "Old", "Missing"]);
}

#[test]
fn status_puts_actionable_games_first_and_empty_games_last() {
    let mut update = row("Update", "Steam", 2, None, 3);
    update.dlss_upgrades = 1;
    let optional = row("Optional", "Steam", 2, None, 2);
    let mut problem = row("Problem", "Steam", 0, None, 0);
    problem.inspection_errors = 1;
    let mut unknown = row("Unknown", "Steam", 1, None, 0);
    unknown.has_unknown = true;
    let current = row("Current", "Steam", 1, None, 0);
    let empty = row("Empty", "Steam", 0, None, 0);

    assert_eq!(row_status(&update, true), RowStatus::UpdateAvailable);
    assert_eq!(row_status(&optional, true), RowStatus::OptionalUpdates);
    assert_eq!(row_status(&problem, true), RowStatus::Problem);
    assert_eq!(row_status(&unknown, true), RowStatus::VersionUnknown);
    assert_eq!(row_status(&current, true), RowStatus::UpToDate);
    assert_eq!(row_status(&empty, true), RowStatus::NoDlls);
    // Without a downloaded release, nothing can claim to be up to date.
    assert_eq!(row_status(&current, false), RowStatus::NotChecked);
    assert_eq!(row_status(&empty, false), RowStatus::NoDlls);

    let games = [empty, current, unknown, optional, problem, update];
    assert_eq!(
        names_for(&games, SortKey::Status, true),
        ["Update", "Problem", "Optional", "Unknown", "Current", "Empty"]
    );
}

#[test]
fn range_selection_follows_the_anchor_game_through_reordering() {
    let games = [
        row("a", "Steam", 1, None, 0),
        row("b", "Steam", 1, None, 0),
        row("c", "Steam", 1, None, 0),
        row("d", "Steam", 1, None, 0),
    ];
    let anchor = GameId("b".into());
    assert_eq!(selection_range(&[0, 1, 2, 3], &games, Some(&anchor), 3), Some(1..=3));
    // Reversed order: "b" now sits at position 2, and the range runs upward.
    assert_eq!(selection_range(&[3, 2, 1, 0], &games, Some(&anchor), 0), Some(0..=2));
    // Anchor filtered out, or never set: no range.
    assert_eq!(selection_range(&[0, 2, 3], &games, Some(&anchor), 1), None);
    assert_eq!(selection_range(&[0, 1, 2, 3], &games, None, 1), None);
}

#[test]
fn sort_markers_show_direction_with_bundled_icons() {
    let active = GameSort { key: SortKey::Name, ascending: true };
    assert_eq!(sort_marker(SortKey::Name, active), Some(icons::CARET_UP));
    assert_eq!(
        sort_marker(SortKey::Name, GameSort { ascending: false, ..active }),
        Some(icons::CARET_DOWN)
    );
    assert_eq!(sort_marker(SortKey::Store, active), None);
}

#[test]
fn a_row_is_the_game_with_its_risk() {
    let game = GameInstall {
        id: GameId("steam:1".into()),
        name: "Fortnite".into(),
        store: StoreKind::Epic,
        root: place("/games/fn"),
        dlls: vec![installation("nvngx_dlssg.dll", DllVersion::new(3, 1, 0, 0))],
        inspection_errors: 2,
    };
    let row = GameRow::from_install(game);
    assert_eq!(row.store, "Epic");
    assert_eq!(row.dlls, 1);
    assert_eq!(row.dlss_version, None);
    assert!(!row.has_unknown);
    assert_eq!(row.inspection_errors, 2);
    assert_eq!(row.known_risk, Some("Fortnite"));
}

#[test]
fn clicking_a_title_turns_the_order_around() {
    let sort = GameSort { key: SortKey::Name, ascending: true };
    assert_eq!(
        next_sort(SortKey::Name, sort),
        GameSort { key: SortKey::Name, ascending: false }
    );
    assert_eq!(
        next_sort(SortKey::Dlls, sort),
        GameSort { key: SortKey::Dlls, ascending: true }
    );
    assert_eq!(sort_hint(SortKey::Name, sort), "ascending; activate to sort descending");
    assert_eq!(sort_hint(SortKey::Dlls, sort), "not sorted; activate to sort ascending");
}

#[test]
fn games_of_the_same_name_keep_their_order() {
    let mut first = row("Same", "Steam", 1, None, 0);
    first.id = GameId("first".into());
    let mut second = row("SAME", "Steam", 2, None, 0);
    second.id = GameId("second".into());
    let games = [first, second];
    let mut rows = vec![0, 1];
    sort_rows(&mut rows, &games, GameSort { key: SortKey::Name, ascending: true }, true);
    assert_eq!(rows, [0, 1]);
}

fn filter(search: &str, tab: GameFilter, store: StoreFilter) -> LibraryFilter {
    LibraryFilter {
        search: search.to_owned(),
        tab,
        store,
        sort: GameSort { key: SortKey::Name, ascending: true },
    }
}

#[test]
fn the_search_looks_at_names_and_stores_in_any_case() {
    let game = row("Alan Wake 2", "Epic", 1, None, 0);
    assert!(matches_search_and_store(&game, "wake", StoreFilter::All));
    assert!(matches_search_and_store(&game, "epic", StoreFilter::All));
    assert!(!matches_search_and_store(&game, "control", StoreFilter::All));
    let games = [game];
    let profile = TargetProfile::new();
    let shown =
        filtered_game_rows(&games, &filter("WAKE", GameFilter::All, StoreFilter::All), &profile, true);
    assert_eq!(shown, [0]);
    let none =
        filtered_game_rows(&games, &filter("x", GameFilter::All, StoreFilter::All), &profile, true);
    assert!(none.is_empty());
}

#[test]
fn staged_games_are_those_with_a_real_choice() {
    let mut game = row("Game", "Steam", 1, None, 0);
    game.details.push(installation("nvngx_dlss.dll", DllVersion::new(3, 0, 0, 0)));
    let games = [game];
    let mut profile = TargetProfile::new();
    assert!(staged_games(&games, &profile).is_empty());
    profile.insert(DllInstallationId("nvngx_dlss.dll".into()), DesiredDll::KeepInstalled);
    assert!(staged_games(&games, &profile).is_empty());
    profile.insert(DllInstallationId("nvngx_dlss.dll".into()), DesiredDll::LatestOfficial);
    let staged = staged_games(&games, &profile);
    assert!(contains_game(&staged, &GameId("Game".into())));
    assert!(!contains_game(&staged, &GameId("Other".into())));
}

#[test]
fn tabs_count_what_they_would_show() {
    let games = [
        row("One", "Steam", 1, None, 1),
        row("Two", "Steam", 1, None, 0),
        row("Three", "Steam", 0, None, 0),
    ];
    let profile = TargetProfile::new();
    let wide = filter("", GameFilter::All, StoreFilter::All);
    let counts = tab_counts(&games, &wide, &profile);
    let of = |tab| counts.iter().find(|(listed, _)| *listed == tab).map(|(_, count)| *count);
    assert_eq!(of(GameFilter::All), Some(3));
    assert_eq!(of(GameFilter::WithDlls), Some(2));
    assert_eq!(of(GameFilter::Updates), Some(1));
    assert_eq!(of(GameFilter::Problems), Some(0));
    assert!(offers_tab(GameFilter::Updates, 1, GameFilter::All));
    assert!(!offers_tab(GameFilter::Problems, 0, GameFilter::All));
    assert_eq!(
        visible_rows(&games, "", StoreFilter::All, GameFilter::WithDlls, &[]),
        [0, 1]
    );
    assert_eq!(tab_label(GameFilter::All).0, "All");
}

#[test]
fn an_empty_list_can_be_widened() {
    let mut narrow = filter("zelda", GameFilter::Updates, StoreFilter::All);
    let message = empty_filter_message(&narrow, true);
    assert_eq!(message.0, icons::MAGNIFYING_GLASS);
    assert_eq!(message.1, "No games match \"zelda\"");
    assert_eq!(message.3, Some("Clear search"));
    widen(&mut narrow);
    assert!(narrow.search.is_empty());
    assert_eq!(narrow.tab, GameFilter::Updates);
    let message = empty_filter_message(&narrow, false);
    assert_eq!(message.1, "Updates are not checked yet");
    widen(&mut narrow);
    assert_eq!(narrow.tab, GameFilter::All);
    assert_eq!(tab_label(GameFilter::Updates).1, "Games with a newer official DLL");
}

#[test]
fn selection_can_be_set_for_some_rows() {
    let mut games = vec![row("a", "Steam", 1, None, 0), row("b", "Steam", 1, None, 0)];
    set_selection(&mut games, true, Some(&[1]));
    assert!(!games[0].selected);
    assert!(games[1].selected);
    set_selection(&mut games, true, None);
    assert!(games[0].selected);
    set_selection(&mut games, false, None);
    assert!(!games[0].selected && !games[1].selected);
}

#[test]
fn a_click_with_shift_means_everything_from_the_anchor() {
    let mut games = vec![
        row("a", "Steam", 1, None, 0),
        row("b", "Steam", 0, None, 0),
        row("c", "Steam", 1, None, 0),
    ];
    let mut anchor = None;
    let rows = [0, 1, 2];
    apply_toggle(
        &mut games,
        &mut anchor,
        &rows,
        Toggle { position: 0, selected: true, extend: true },
    );
    assert_eq!(anchor, Some(GameId("a".into())));
    assert!(games[0].selected && !games[2].selected);
    apply_toggle(
        &mut games,
        &mut anchor,
        &rows,
        Toggle { position: 2, selected: true, extend: true },
    );
    // A game without DLLs cannot be selected.
    assert!(games[0].selected && !games[1].selected && games[2].selected);
    assert_eq!(anchor, Some(GameId("c".into())));
}
