use dlss_updater::clock::{now_unix, unix_seconds};
use dlss_updater::keyed::Keyed;
use dlss_updater::logs::{
    log_file_name, logs_to_remove, LogFile, MAX_LOG_BYTES, MAX_LOG_DAYS,
};
use dlss_updater::model::{GameId, GameInstall, StoreKind};
use dlss_updater::order::{sort_texts, stable_order, OrderKey};
use dlss_updater::paths::{readable_text, FilePath, PathStyle};
use dlss_updater::risk::known_game_risk;

fn place(text: &str) -> FilePath {
    FilePath::parse(PathStyle::Windows, text)
}

fn game(name: &str, root: &str) -> GameInstall {
    GameInstall {
        id: GameId::new(name),
        name: name.into(),
        store: StoreKind::Manual,
        root: place(root),
        dlls: Vec::new(),
        inspection_errors: 0,
    }
}

#[test]
fn normalizes_case_punctuation_and_spacing() {
    assert_eq!(
        known_game_risk(&game("tom clancys rainbow-six siege", "/games/other")),
        Some("Tom Clancy's Rainbow Six Siege")
    );
}

#[test]
fn resolves_folder_alias_to_canonical_name() {
    assert_eq!(
        known_game_risk(&game("Avatar", "/games/AFOP")),
        Some("Avatar: Frontiers of Pandora")
    );
    assert_eq!(
        known_game_risk(&game("Evil Dead", "/games/EvilDead")),
        Some("EVIL DEAD The Game")
    );
}

#[test]
fn matches_display_name_or_root_basename() {
    assert_eq!(
        known_game_risk(&game("THE FINALS", "/games/unrelated")),
        Some("The Finals")
    );
    assert_eq!(
        known_game_risk(&game("Custom label", "/games/MonsterHunterWilds")),
        Some("Monster Hunter Wilds")
    );
}

#[test]
fn rejects_partial_matches_and_parent_directories() {
    assert_eq!(known_game_risk(&game("Fortnite Demo", "/games/safe")), None);
    assert_eq!(known_game_risk(&game("Safe Game", "/Fortnite/safe")), None);
}

#[test]
fn a_week_of_logs_is_kept() {
    let names: Vec<String> = (1..=9)
        .map(|day| log_file_name(&format!("2026-01-0{day}")))
        .chain(["notes.txt".to_owned()])
        .collect();
    assert_eq!(
        logs_to_remove(&names),
        ["dlss-updater-2026-01-01.log", "dlss-updater-2026-01-02.log"]
    );
    let week: Vec<String> = names.into_iter().take(MAX_LOG_DAYS).collect();
    assert!(logs_to_remove(&week).is_empty());
}

#[test]
fn a_log_stops_at_its_cap() {
    let mut file = LogFile::new();
    assert!(file.is_outdated("2026-01-01"));
    file.date = "2026-01-01".into();
    assert!(!file.is_outdated("2026-01-01"));
    file.bytes = MAX_LOG_BYTES - 3;
    assert_eq!(file.room_for(10), Some(3));
    file.wrote(3);
    assert_eq!(file.room_for(1), None);
}

#[test]
fn a_table_holds_one_value_for_each_key() {
    let mut table = Keyed::new();
    assert!(table.is_empty());
    table.insert("b".into(), 1);
    table.insert("a".into(), 2);
    table.insert("b".into(), 3);
    assert!(table.contains("a"));
    assert_eq!(table.get("b"), Some(&3));
    assert_eq!(table.remove("b"), Some(3));
    assert_eq!(table.remove("b"), None);
    assert_eq!(table.get("a"), Some(&2));
}

#[test]
fn texts_are_sorted_by_their_characters() {
    let texts: Vec<String> = ["b", "", "Z", "a", "ab"].iter().map(|text| (*text).into()).collect();
    assert_eq!(sort_texts(&texts), ["", "Z", "a", "ab", "b"]);
}

#[test]
fn equal_keys_keep_their_order_both_ways() {
    let key = |number: u128| OrderKey { number, first: Vec::new(), second: Vec::new() };
    let keys = vec![key(2), key(1), key(2), key(1)];
    assert_eq!(stable_order(&keys, false), [1, 3, 0, 2]);
    assert_eq!(stable_order(&keys, true), [0, 2, 1, 3]);
}

#[test]
fn paths_have_one_form() {
    assert_eq!(place("/a//b/./c/").text, "/a/b/c");
    assert_eq!(place(r"C:\Games\One").text, "C:/Games/One");
    assert_eq!(place(r"\\server\share").text, "//server/share/");
    let path = place("/a/b.dll");
    assert_eq!(path.file_name().as_deref(), Some("b.dll"));
    assert_eq!(place("/").file_name(), None);
    assert!(path.lies_within(&place("/a")));
    assert!(path.lies_within(&place("")));
    assert!(!place("/ab").lies_within(&place("/a")));
    assert_eq!(path.neighbour("c.dll").text, "/a/c.dll");
    assert_eq!(path.lead(PathStyle::Windows, "../c").text, "/a/b.dll/../c");
    assert_eq!(path.lead(PathStyle::Windows, "/c").text, "/c");
}

#[test]
fn drives_and_shares_begin_windows_paths() {
    // The case of a drive letter does not matter, that of a name does.
    assert_eq!(place(r"c:\Games"), place("C:/Games"));
    assert_ne!(place(r"C:\Games"), place(r"C:\games"));
    assert_eq!(place(r"\\?\d:\Games").text, "//?/D:/Games");
    // The root of a drive is not the place where the drive was left.
    assert_eq!(place(r"C:\").text, "C:/");
    assert_eq!(place("C:").text, "C:*/");
    assert_eq!(place("C:game.exe").text, "C:*/game.exe");
    assert_eq!(place("C:").join("x"), place("C:x"));
    assert_eq!(place(r"C:\").join("x"), place(r"C:\x"));
    for root in [r"C:\", "C:", r"\\server\share", r"\\?\D:\", r"\\?\UNC\server\share"] {
        assert_eq!(place(root).file_name(), None, "{root}");
        assert_eq!(place(root).parent(PathStyle::Windows), None, "{root}");
    }
    assert_eq!(place(r"\\.\COM1").text, "//./COM1/");
    assert_eq!(place(r"\\server").text, "/server");
    // A root without a drive is that of the drive at hand.
    let base = place(r"C:\Steam\common");
    let lead = |text: &str| base.lead(PathStyle::Windows, text).text;
    assert_eq!(lead(r"\Other"), "C:/Other");
    assert_eq!(lead(r"D:\Other"), "D:/Other");
    assert_eq!(lead(r"a\.\b\"), "C:/Steam/common/a/b");
    assert_eq!(lead(""), "C:/Steam/common");
    assert_eq!(place("C:").lead(PathStyle::Windows, r"\x").text, "C:/x");
    assert_eq!(place(r"\\s\h\a").lead(PathStyle::Windows, r"\x").text, "//s/h/x");
}

#[test]
fn unix_paths_know_one_separator() {
    let unix = |text: &str| FilePath::parse(PathStyle::Unix, text);
    assert_eq!(unix("//a"), unix("/a"));
    assert_eq!(unix(r"/a\b").file_name().as_deref(), Some(r"a\b"));
    assert_ne!(unix("c:/x"), unix("C:/x"));
    assert_eq!(unix("c:/x").parent(PathStyle::Unix).unwrap().text, "c:");
    assert_eq!(unix("/x").parent(PathStyle::Unix).unwrap().text, "/");
    assert_eq!(unix("x").parent(PathStyle::Unix).unwrap().text, "");
    assert_eq!(unix("/a").lead(PathStyle::Unix, r"\b").text, r"/a/\b");
    assert_eq!(unix("/a").lead(PathStyle::Unix, "/b").text, "/b");
}

#[test]
fn a_leading_dot_belongs_to_a_relative_path() {
    for style in [PathStyle::Unix, PathStyle::Windows] {
        assert_eq!(FilePath::parse(style, "./a/./b").text, "./a/b");
        assert_eq!(FilePath::parse(style, ".").text, ".");
        assert_eq!(FilePath::parse(style, "/./a").text, "/a");
        assert_eq!(FilePath::parse(style, "a/.").text, "a");
        assert_eq!(FilePath::parse(style, "").lead(style, "./a").text, "./a");
        assert_eq!(FilePath::parse(style, "x").lead(style, "./a").text, "x/a");
    }
}

#[test]
fn extensions_are_exchanged_behind_the_last_dot() {
    assert_eq!(place("/a/b.dll").with_extension("bak").text, "/a/b.bak");
    assert_eq!(place("/a/b.c.dll").with_extension("x").text, "/a/b.c.x");
    assert_eq!(place("/a/.hidden").with_extension("x").text, "/a/.hidden.x");
    assert_eq!(place("/a/plain").with_extension("x").text, "/a/plain.x");
    assert_eq!(place("/").with_extension("x").text, "/");
}

#[test]
fn units_that_are_no_text_are_shown_as_one_character() {
    assert_eq!(readable_text("/a/\0dc80x"), "/a/\u{fffd}x");
    assert_eq!(readable_text("plain"), "plain");
}

#[test]
fn the_clock_counts_from_the_epoch() {
    assert_eq!(unix_seconds(Some(7)), 7);
    assert_eq!(unix_seconds(None), 0);
    // Any clock that this runs on is past the year 2020.
    assert!(now_unix() > 1_577_836_800);
}
