//! What holds of the search of the game stores as a whole: no game, library or
//! fault that a store names is lost, and none is made up.

use crate::discovery::{
    all_apps, all_errors, all_gog_errors, all_gog_games, described_app, distinct_directories,
    epic_file_errors, epic_file_games, file_apps, file_errors, first_occurrences,
    first_spellings, forms, game_position, gog_errors, gog_games, is_arranged, is_sorted_by,
    library_texts, lower_names, named_directories, names_library, read_errors, same_directory,
    says_missing, steam_registry_errors, steamapps_in, token_at, tokens_of, unescaped, value_of,
    view_name, with_game, without_repeats, EpicFile, GogKey, GogKeys, GogView, LibraryRead,
    ManifestFile, ManifestScan, RegistryError, SteamApp,
};
use crate::inspection::is_concluded;
use crate::lists::{picks, picks_grow, picks_nothing};
use crate::model::{same_game, GameInstall, StoreKind};
use crate::order::{code_points, is_stable_order, precedes, stable_orders_are_sorted, text_keys};
use crate::paths::{joined, led_to, normal_form, PathStyle};
use crate::text::{ascii_folded, begins, ends, lowercase, text_views};
use crate::tools::RegistryView;
use vstd::prelude::*;

verus! {

/// The value of a key is the token behind the first token that is the key but
/// for the case of letters. There is none where no token with one behind it is
/// the key.
pub proof fn values_stand_behind_their_key(tokens: Seq<Seq<char>>, key: Seq<char>) -> (at: int)
    ensures
        value_of(tokens, key) is Some ==> 0 <= at < tokens.len() - 1 && ascii_folded(tokens[at])
            == ascii_folded(key) && value_of(tokens, key) == Some(tokens[at + 1]) && (forall|i: int|
            0 <= i < at ==> ascii_folded(#[trigger] tokens[i]) != ascii_folded(key)),
        value_of(tokens, key) is None ==> forall|i: int|
            0 <= i < tokens.len() - 1 ==> ascii_folded(#[trigger] tokens[i]) != ascii_folded(key),
    decreases tokens.len(),
{
    if tokens.len() < 2 {
        0
    } else {
        let shorter = tokens.drop_last();
        let at = values_stand_behind_their_key(shorter, key);
        if value_of(shorter, key) is Some {
            assert forall|i: int| 0 <= i < at implies ascii_folded(#[trigger] tokens[i])
                != ascii_folded(key) by {
                assert(shorter[i] == tokens[i]);
            }
            at
        } else {
            assert forall|i: int| 0 <= i < tokens.len() - 2 implies ascii_folded(
                #[trigger] tokens[i],
            ) != ascii_folded(key) by {
                assert(shorter[i] == tokens[i]);
            }
            tokens.len() - 2
        }
    }
}

/// Whether a file is the readable manifest of an application, with its
/// identifier, its name and its directory.
pub open spec fn is_complete_manifest(file: ManifestFile) -> bool {
    &&& file matches ManifestFile::Listed { name, read: Ok(contents), .. }
    &&& begins(name@, "appmanifest_"@)
    &&& ends(name@, ".acf"@)
    &&& value_of(tokens_of(contents@), "appid"@) is Some
    &&& value_of(tokens_of(contents@), "name"@) is Some
    &&& value_of(tokens_of(contents@), "installdir"@) is Some
}

/// Each readable and complete manifest gives its application, in the order of
/// the files, but for the one of the runtimes shared by all games. Nothing else
/// gives one.
pub proof fn every_steam_game_is_found(
    style: PathStyle,
    steamapps: Seq<char>,
    files: Seq<ManifestFile>,
) -> (found: Seq<int>)
    ensures
        picks(
            found,
            files.len() as int,
            |i: int|
                is_complete_manifest(files[i]) && (files[i] matches ManifestFile::Listed {
                    read: Ok(contents),
                    ..
                } && value_of(tokens_of(contents@), "appid"@) != Some("228980"@)),
        ),
        file_apps(style, steamapps, files).len() == found.len(),
        forall|k: int|
            #![trigger file_apps(style, steamapps, files)[k]]
            0 <= k < found.len() ==> {
                let app = file_apps(style, steamapps, files)[k];
                &&& files[found[k]] matches ManifestFile::Listed { read: Ok(contents), .. }
                &&& value_of(tokens_of(contents@), "appid"@) == Some(app.app_id)
                &&& value_of(tokens_of(contents@), "name"@) == Some(app.title)
                &&& app.root == led_to(
                    style,
                    joined(steamapps, "common"@),
                    value_of(tokens_of(contents@), "installdir"@)->0,
                )
            },
    decreases files.len(),
{
    let here = |i: int|
        is_complete_manifest(files[i]) && (files[i] matches ManifestFile::Listed {
            read: Ok(contents),
            ..
        } && value_of(tokens_of(contents@), "appid"@) != Some("228980"@));
    if files.len() == 0 {
        picks_nothing(here);
        Seq::empty()
    } else {
        let shorter = files.drop_last();
        let before = every_steam_game_is_found(style, steamapps, shorter);
        picks_grow(
            before,
            shorter.len() as int,
            |i: int|
                is_complete_manifest(shorter[i]) && (shorter[i] matches ManifestFile::Listed {
                    read: Ok(contents),
                    ..
                } && value_of(tokens_of(contents@), "appid"@) != Some("228980"@)),
            here,
        )
    }
}

/// Each manifest that could not be read or is not complete is told of, and each
/// end of the listing before its time; nothing else is.
pub proof fn every_steam_fault_is_told(directory: Seq<char>, files: Seq<ManifestFile>) -> (faults:
    Seq<int>)
    ensures
        picks(
            faults,
            files.len() as int,
            |i: int|
                files[i] is Unlisted || (files[i] matches ManifestFile::Listed { name, .. }
                    && begins(name@, "appmanifest_"@) && ends(name@, ".acf"@)
                    && !is_complete_manifest(files[i])),
        ),
        file_errors(directory, files).len() == faults.len(),
        forall|k: int|
            #![trigger file_errors(directory, files)[k]]
            0 <= k < faults.len() ==> match files[faults[k]] {
                ManifestFile::Unlisted { error } => file_errors(directory, files)[k] == directory
                    + ": "@ + error@,
                ManifestFile::Listed { name, shown, read: Err(error) } => file_errors(
                    directory,
                    files,
                )[k] == shown@ + ": "@ + error@,
                ManifestFile::Listed { name, shown, read: Ok(_) } => file_errors(directory, files)[k]
                    == shown@ + ": required fields are missing"@,
            },
    decreases files.len(),
{
    let here = |i: int|
        files[i] is Unlisted || (files[i] matches ManifestFile::Listed { name, .. } && begins(
            name@,
            "appmanifest_"@,
        ) && ends(name@, ".acf"@) && !is_complete_manifest(files[i]));
    if files.len() == 0 {
        picks_nothing(here);
        Seq::empty()
    } else {
        let shorter = files.drop_last();
        let before = every_steam_fault_is_told(directory, shorter);
        picks_grow(
            before,
            shorter.len() as int,
            |i: int|
                shorter[i] is Unlisted || (shorter[i] matches ManifestFile::Listed { name, .. }
                    && begins(name@, "appmanifest_"@) && ends(name@, ".acf"@)
                    && !is_complete_manifest(shorter[i])),
            here,
        )
    }
}

/// The applications and the errors of several libraries are those of each, one
/// library after the other.
pub proof fn libraries_add_up(
    first: Seq<ManifestScan<SteamApp>>,
    last: Seq<ManifestScan<SteamApp>>,
)
    ensures
        all_apps(first + last) == all_apps(first) + all_apps(last),
        all_errors(first + last) == all_errors(first) + all_errors(last),
        last.len() == 1 ==> all_apps(last) == last[0].items@,
        last.len() == 1 ==> all_errors(last) == text_views(last[0].errors@),
        last.len() == 0 ==> all_apps(last).len() == 0 && all_errors(last).len() == 0,
    decreases last.len(),
{
    if last.len() == 0 {
        assert(first + last =~= first);
        assert(all_apps(first) + all_apps(last) =~= all_apps(first));
        assert(all_errors(first) + all_errors(last) =~= all_errors(first));
    } else {
        let shorter = last.drop_last();
        libraries_add_up(first, shorter);
        assert((first + last).drop_last() =~= first + shorter);
        assert((first + last).last() == last.last());
        assert(all_apps(first + last) =~= all_apps(first) + all_apps(last));
        assert(all_errors(first + last) =~= all_errors(first) + all_errors(last));
        if last.len() == 1 {
            assert(shorter =~= Seq::empty());
            assert(all_apps(last) =~= last[0].items@);
            assert(all_errors(last) =~= text_views(last[0].errors@));
        }
    }
}

/// Whether a file is a readable manifest of the Epic launcher that says where
/// its game is and how it is told from others.
pub open spec fn is_complete_item(file: EpicFile) -> bool {
    &&& file matches EpicFile::Listed { name, read: Ok(manifest), .. }
    &&& name@.len() > 5
    &&& ends(ascii_folded(name@), ".item"@)
    &&& manifest.install_location@.len() > 0
    &&& manifest.catalog_item_id@.len() > 0 || manifest.app_name@.len() > 0
}

/// Each readable and complete manifest of the Epic launcher gives its game, in
/// the order of the files, and nothing else gives one.
pub proof fn every_epic_game_is_found(style: PathStyle, files: Seq<EpicFile>) -> (found: Seq<int>)
    ensures
        picks(found, files.len() as int, |i: int| is_complete_item(files[i])),
        epic_file_games(style, files).len() == found.len(),
        forall|k: int|
            #![trigger epic_file_games(style, files)[k]]
            0 <= k < found.len() ==> {
                let game = epic_file_games(style, files)[k];
                &&& files[found[k]] matches EpicFile::Listed { read: Ok(manifest), .. }
                &&& manifest.catalog_item_id@.len() > 0 ==> game.id == "epic:"@
                    + manifest.catalog_item_id@
                &&& manifest.catalog_item_id@.len() == 0 ==> game.id == "epic:"@
                    + manifest.app_name@
                &&& game.name == manifest.display_name@
                &&& game.store == StoreKind::Epic
                &&& game.root == normal_form(style, manifest.install_location@)
                &&& game.dlls.len() == 0
                &&& game.inspection_errors == 0
            },
    decreases files.len(),
{
    let here = |i: int| is_complete_item(files[i]);
    if files.len() == 0 {
        picks_nothing(here);
        Seq::empty()
    } else {
        let shorter = files.drop_last();
        let before = every_epic_game_is_found(style, shorter);
        picks_grow(before, shorter.len() as int, |i: int| is_complete_item(shorter[i]), here)
    }
}

/// Each manifest of the Epic launcher that could not be read or is not complete
/// is told of, and each end of the listing before its time; nothing else is.
pub proof fn every_epic_fault_is_told(directory: Seq<char>, files: Seq<EpicFile>) -> (faults: Seq<
    int,
>)
    ensures
        picks(
            faults,
            files.len() as int,
            |i: int|
                files[i] is Unlisted || (files[i] matches EpicFile::Listed { name, .. }
                    && name@.len() > 5 && ends(ascii_folded(name@), ".item"@)
                    && !is_complete_item(files[i])),
        ),
        epic_file_errors(directory, files).len() == faults.len(),
        forall|k: int|
            #![trigger epic_file_errors(directory, files)[k]]
            0 <= k < faults.len() ==> match files[faults[k]] {
                EpicFile::Unlisted { error } => epic_file_errors(directory, files)[k] == directory
                    + ": "@ + error@,
                EpicFile::Listed { name, shown, read: Err(error) } => epic_file_errors(
                    directory,
                    files,
                )[k] == shown@ + ": "@ + error@,
                EpicFile::Listed { name, shown, read: Ok(manifest) } => epic_file_errors(
                    directory,
                    files,
                )[k] == shown@ + ": "@ + if manifest.install_location@.len() == 0 {
                    "install location is missing"@
                } else {
                    "catalog and app identifiers are missing"@
                },
            },
    decreases files.len(),
{
    let here = |i: int|
        files[i] is Unlisted || (files[i] matches EpicFile::Listed { name, .. } && name@.len() > 5
            && ends(ascii_folded(name@), ".item"@) && !is_complete_item(files[i]));
    if files.len() == 0 {
        picks_nothing(here);
        Seq::empty()
    } else {
        let shorter = files.drop_last();
        let before = every_epic_fault_is_told(directory, shorter);
        picks_grow(
            before,
            shorter.len() as int,
            |i: int|
                shorter[i] is Unlisted || (shorter[i] matches EpicFile::Listed { name, .. }
                    && name@.len() > 5 && ends(ascii_folded(name@), ".item"@)
                    && !is_complete_item(shorter[i])),
            here,
        )
    }
}

/// Each key of GOG that could be opened and says where its game is gives that
/// game, in the order of the keys, and nothing else gives one.
pub proof fn every_gog_game_is_found(keys: Seq<GogKey>) -> (found: Seq<int>)
    ensures
        picks(found, keys.len() as int, |i: int| keys[i].fault is None && keys[i].path is Ok),
        gog_games(keys).len() == found.len(),
        forall|k: int|
            #![trigger gog_games(keys)[k]]
            0 <= k < found.len() ==> {
                let game = gog_games(keys)[k];
                let key = keys[found[k]];
                &&& key.game_id matches Some(id) ==> game.id == "gog:"@ + id@
                &&& key.game_id is None ==> game.id == "gog:"@ + key.name@
                &&& key.game_name matches Some(name) ==> game.name == name@
                &&& key.game_name is None ==> game.name == key.name@
                &&& game.store == StoreKind::Gog
                &&& game.root == normal_form(PathStyle::Windows, key.path->Ok_0@)
                &&& game.dlls.len() == 0
                &&& game.inspection_errors == 0
            },
    decreases keys.len(),
{
    let here = |i: int| keys[i].fault is None && keys[i].path is Ok;
    if keys.len() == 0 {
        picks_nothing(here);
        Seq::empty()
    } else {
        let shorter = keys.drop_last();
        let before = every_gog_game_is_found(shorter);
        picks_grow(
            before,
            shorter.len() as int,
            |i: int| shorter[i].fault is None && shorter[i].path is Ok,
            here,
        )
    }
}

/// Each key of GOG that could not be opened or does not say where its game is
/// is told of, and nothing else is.
pub proof fn every_gog_fault_is_told(kind: RegistryView, keys: Seq<GogKey>) -> (faults: Seq<int>)
    ensures
        picks(faults, keys.len() as int, |i: int| keys[i].fault is Some || keys[i].path is Err),
        gog_errors(kind, keys).len() == faults.len(),
        forall|k: int|
            #![trigger gog_errors(kind, keys)[k]]
            0 <= k < faults.len() ==> {
                let key = keys[faults[k]];
                let half = if kind == RegistryView::View32 {
                    "View32"@
                } else {
                    "View64"@
                };
                &&& key.fault matches Some(fault) ==> gog_errors(kind, keys)[k] == half + "/"@
                    + key.name@ + ": "@ + fault@
                &&& key.fault is None ==> gog_errors(kind, keys)[k] == half + "/"@ + key.name@
                    + "/path: "@ + key.path->Err_0@
            },
    decreases keys.len(),
{
    let here = |i: int| keys[i].fault is Some || keys[i].path is Err;
    if keys.len() == 0 {
        picks_nothing(here);
        Seq::empty()
    } else {
        let shorter = keys.drop_last();
        let before = every_gog_fault_is_told(kind, shorter);
        picks_grow(
            before,
            shorter.len() as int,
            |i: int| shorter[i].fault is Some || shorter[i].path is Err,
            here,
        )
    }
}

/// The games and the errors of GOG are those of each half of the registry, one
/// after the other.
pub proof fn registry_halves_add_up(first: Seq<GogView>, last: Seq<GogView>)
    ensures
        all_gog_games(first + last) == all_gog_games(first) + all_gog_games(last),
        all_gog_errors(first + last) == all_gog_errors(first) + all_gog_errors(last),
        last.len() == 0 ==> all_gog_games(last).len() == 0 && all_gog_errors(last).len() == 0,
        last.len() == 1 ==> match last[0].keys {
            GogKeys::Listed(keys) => all_gog_games(last) == gog_games(keys@) && all_gog_errors(last)
                == gog_errors(last[0].kind, keys@),
            GogKeys::Unlisted(error) => all_gog_games(last).len() == 0 && all_gog_errors(last)
                == seq![view_name(last[0].kind) + ": "@ + error@],
            GogKeys::Closed(error) => all_gog_games(last).len() == 0 && all_gog_errors(last)
                == if says_missing(error.code) {
                Seq::<Seq<char>>::empty()
            } else {
                seq![view_name(last[0].kind) + ": "@ + error.text@]
            },
        },
    decreases last.len(),
{
    if last.len() == 0 {
        assert(first + last =~= first);
        assert(all_gog_games(first) + all_gog_games(last) =~= all_gog_games(first));
        assert(all_gog_errors(first) + all_gog_errors(last) =~= all_gog_errors(first));
    } else {
        let shorter = last.drop_last();
        registry_halves_add_up(first, shorter);
        assert((first + last).drop_last() =~= first + shorter);
        assert((first + last).last() == last.last());
        assert(all_gog_games(first + last) =~= all_gog_games(first) + all_gog_games(last));
        assert(all_gog_errors(first + last) =~= all_gog_errors(first) + all_gog_errors(last));
        if last.len() == 1 {
            assert(shorter =~= Seq::empty());
            match last[0].keys {
                GogKeys::Listed(keys) => {
                    assert(all_gog_games(last) =~= gog_games(keys@));
                    assert(all_gog_errors(last) =~= gog_errors(last[0].kind, keys@));
                },
                GogKeys::Unlisted(error) => {
                    assert(all_gog_errors(last) =~= seq![view_name(last[0].kind) + ": "@ + error@]);
                },
                GogKeys::Closed(error) => {
                    if !says_missing(error.code) {
                        assert(all_gog_errors(last) =~= seq![
                            view_name(last[0].kind) + ": "@ + error.text@,
                        ]);
                    }
                },
            }
        }
    }
}

/// Each token that stands behind the key `path`, and each that holds a
/// separator and stands behind a number, names a library, in order.
pub proof fn every_library_is_named(tokens: Seq<Seq<char>>) -> (named: Seq<int>)
    ensures
        picks(
            named,
            tokens.len() as int,
            |i: int|
                i > 0 && (ascii_folded(tokens[i - 1]) == "path"@ || (forall|c: int|
                    0 <= c < tokens[i - 1].len() ==> '0' <= #[trigger] tokens[i - 1][c] <= '9') && (
                tokens[i].contains('/') || tokens[i].contains('\\'))),
        ),
        library_texts(tokens).len() == named.len(),
        forall|k: int|
            0 <= k < named.len() ==> #[trigger] library_texts(tokens)[k] == unescaped(
                tokens[named[k]],
            ),
    decreases tokens.len(),
{
    let here = |i: int|
        i > 0 && (ascii_folded(tokens[i - 1]) == "path"@ || (forall|c: int|
            0 <= c < tokens[i - 1].len() ==> '0' <= #[trigger] tokens[i - 1][c] <= '9') && (
        tokens[i].contains('/') || tokens[i].contains('\\')));
    if tokens.len() == 0 {
        picks_nothing(here);
        Seq::empty()
    } else {
        let shorter = tokens.drop_last();
        let last = tokens.len() - 1;
        let before = every_library_is_named(shorter);
        let then = |i: int|
            i > 0 && (ascii_folded(shorter[i - 1]) == "path"@ || (forall|c: int|
                0 <= c < shorter[i - 1].len() ==> '0' <= #[trigger] shorter[i - 1][c] <= '9') && (
            shorter[i].contains('/') || shorter[i].contains('\\')));
        assert forall|at: int| 0 <= at < shorter.len() implies #[trigger] here(at) == then(at) by {
            assert(shorter[at] == tokens[at]);
            if at > 0 {
                assert(shorter[at - 1] == tokens[at - 1]);
            }
        }
        if last > 0 {
            assert(here(last) == names_library(tokens[last - 1], tokens[last]));
        }
        picks_grow(before, shorter.len() as int, then, here)
    }
}

/// Of values that are equal the first stays, in order, and no other goes.
#[verifier::rlimit(60)]
#[verifier::spinoff_prover]
pub proof fn first_occurrences_stay(values: Seq<Seq<char>>) -> (kept: Seq<int>)
    ensures
        picks(
            kept,
            values.len() as int,
            |i: int| forall|j: int| 0 <= j < i ==> #[trigger] values[j] != values[i],
        ),
        first_occurrences(values).len() == kept.len(),
        forall|k: int|
            0 <= k < kept.len() ==> #[trigger] first_occurrences(values)[k] == values[kept[k]],
        forall|i: int|
            0 <= i < values.len() ==> first_occurrences(values).contains(#[trigger] values[i]),
    decreases values.len(),
{
    let here = |i: int| forall|j: int| 0 <= j < i ==> #[trigger] values[j] != values[i];
    if values.len() == 0 {
        picks_nothing(here);
        Seq::empty()
    } else {
        let shorter = values.drop_last();
        let last = values.len() - 1;
        let before = first_occurrences_stay(shorter);
        let then = |i: int| forall|j: int| 0 <= j < i ==> #[trigger] shorter[j] != shorter[i];
        let earlier = first_occurrences(shorter);
        assert forall|at: int| 0 <= at < last implies #[trigger] here(at) == then(at) by {
            if here(at) {
                assert forall|j: int| 0 <= j < at implies #[trigger] shorter[j] != shorter[at] by {
                    assert(shorter[j] == values[j]);
                }
            }
            if then(at) {
                assert forall|j: int| 0 <= j < at implies #[trigger] values[j] != values[at] by {
                    assert(shorter[j] == values[j]);
                }
            }
        }
        assert(here(last) == !earlier.contains(values[last])) by {
            if earlier.contains(values[last]) {
                let k = choose|k: int| 0 <= k < earlier.len() && earlier[k] == values[last];
                assert(values[before[k]] == values[last]);
            }
            if !here(last) {
                let j = choose|j: int| 0 <= j < last && #[trigger] values[j] == values[last];
                assert(shorter[j] == values[j]);
                assert(earlier.contains(shorter[j]));
            }
        }
        let kept = picks_grow(before, last, then, here);
        let all = first_occurrences(values);
        assert forall|i: int| 0 <= i < values.len() implies all.contains(#[trigger] values[i]) by {
            if i < last {
                assert(shorter[i] == values[i]);
                let k = choose|k: int| 0 <= k < earlier.len() && earlier[k] == values[i];
                assert(all[k] == values[i]);
            } else if here(last) {
                assert(all.last() == values[i]);
            } else {
                let k = choose|k: int| 0 <= k < earlier.len() && earlier[k] == values[i];
                assert(all[k] == values[i]);
            }
        }
        kept
    }
}

/// Of directories that are spelled alike but for separators and the case of
/// letters the first stays, in order, and no other goes.
#[verifier::rlimit(60)]
#[verifier::spinoff_prover]
pub proof fn first_directories_stay(paths: Seq<Seq<char>>) -> (kept: Seq<int>)
    ensures
        picks(
            kept,
            paths.len() as int,
            |i: int| forall|j: int| 0 <= j < i ==> !same_directory(#[trigger] paths[j], paths[i]),
        ),
        distinct_directories(paths).len() == kept.len(),
        forall|k: int|
            0 <= k < kept.len() ==> #[trigger] distinct_directories(paths)[k] == paths[kept[k]],
        forall|i: int|
            #![trigger paths[i]]
            0 <= i < paths.len() ==> exists|k: int|
                0 <= k < distinct_directories(paths).len() && same_directory(
                    #[trigger] distinct_directories(paths)[k],
                    paths[i],
                ),
    decreases paths.len(),
{
    let here = |i: int|
        forall|j: int| 0 <= j < i ==> !same_directory(#[trigger] paths[j], paths[i]);
    if paths.len() == 0 {
        picks_nothing(here);
        Seq::empty()
    } else {
        let shorter = paths.drop_last();
        let last = paths.len() - 1;
        let before = first_directories_stay(shorter);
        let then = |i: int|
            forall|j: int| 0 <= j < i ==> !same_directory(#[trigger] shorter[j], shorter[i]);
        let earlier = distinct_directories(shorter);
        assert forall|at: int| 0 <= at < last implies #[trigger] here(at) == then(at) by {
            if here(at) {
                assert forall|j: int| 0 <= j < at implies !same_directory(
                    #[trigger] shorter[j],
                    shorter[at],
                ) by {
                    assert(shorter[j] == paths[j]);
                }
            }
            if then(at) {
                assert forall|j: int| 0 <= j < at implies !same_directory(
                    #[trigger] paths[j],
                    paths[at],
                ) by {
                    assert(shorter[j] == paths[j]);
                }
            }
        }
        let repeated = exists|k: int|
            0 <= k < earlier.len() && same_directory(#[trigger] earlier[k], paths[last]);
        assert(here(last) == !repeated) by {
            if repeated {
                let k = choose|k: int|
                    0 <= k < earlier.len() && same_directory(#[trigger] earlier[k], paths[last]);
                assert(same_directory(paths[before[k]], paths[last]));
            }
            if !here(last) {
                let j = choose|j: int|
                    0 <= j < last && same_directory(#[trigger] paths[j], paths[last]);
                assert(shorter[j] == paths[j]);
                let k = choose|k: int|
                    0 <= k < earlier.len() && same_directory(#[trigger] earlier[k], shorter[j]);
                assert(same_directory(earlier[k], paths[last]));
            }
        }
        let kept = picks_grow(before, last, then, here);
        let all = distinct_directories(paths);
        assert forall|i: int| #![trigger paths[i]] 0 <= i < paths.len() implies exists|k: int|
            0 <= k < all.len() && same_directory(#[trigger] all[k], paths[i]) by {
            if i < last {
                assert(shorter[i] == paths[i]);
                let k = choose|k: int|
                    0 <= k < earlier.len() && same_directory(#[trigger] earlier[k], shorter[i]);
                assert(all[k] == earlier[k]);
            } else if here(last) {
                assert(all[all.len() - 1] == paths[i]);
            } else {
                let k = choose|k: int|
                    0 <= k < earlier.len() && same_directory(#[trigger] earlier[k], paths[last]);
                assert(all[k] == earlier[k]);
            }
        }
        kept
    }
}

/// Of texts that stand for the same path the first stays, in order, and no
/// other goes.
#[verifier::rlimit(60)]
#[verifier::spinoff_prover]
pub proof fn first_spellings_stay(style: PathStyle, texts: Seq<Seq<char>>) -> (kept: Seq<int>)
    ensures
        picks(
            kept,
            texts.len() as int,
            |i: int|
                forall|j: int|
                    0 <= j < i ==> normal_form(style, #[trigger] texts[j]) != normal_form(
                        style,
                        texts[i],
                    ),
        ),
        first_spellings(style, texts).len() == kept.len(),
        forall|k: int|
            0 <= k < kept.len() ==> #[trigger] first_spellings(style, texts)[k] == texts[kept[k]],
        forall|i: int|
            #![trigger texts[i]]
            0 <= i < texts.len() ==> exists|k: int|
                0 <= k < first_spellings(style, texts).len() && normal_form(
                    style,
                    #[trigger] first_spellings(style, texts)[k],
                ) == normal_form(style, texts[i]),
    decreases texts.len(),
{
    let here = |i: int|
        forall|j: int|
            0 <= j < i ==> normal_form(style, #[trigger] texts[j]) != normal_form(style, texts[i]);
    if texts.len() == 0 {
        picks_nothing(here);
        Seq::empty()
    } else {
        let shorter = texts.drop_last();
        let last = texts.len() - 1;
        let before = first_spellings_stay(style, shorter);
        let then = |i: int|
            forall|j: int|
                0 <= j < i ==> normal_form(style, #[trigger] shorter[j]) != normal_form(
                    style,
                    shorter[i],
                );
        let earlier = first_spellings(style, shorter);
        assert forall|at: int| 0 <= at < last implies #[trigger] here(at) == then(at) by {
            if here(at) {
                assert forall|j: int| 0 <= j < at implies normal_form(style, #[trigger] shorter[j])
                    != normal_form(style, shorter[at]) by {
                    assert(shorter[j] == texts[j]);
                }
            }
            if then(at) {
                assert forall|j: int| 0 <= j < at implies normal_form(style, #[trigger] texts[j])
                    != normal_form(style, texts[at]) by {
                    assert(shorter[j] == texts[j]);
                }
            }
        }
        let repeated = forms(style, earlier).contains(
            normal_form(style, texts[last]),
        );
        assert(here(last) == !repeated) by {
            if repeated {
                let k = choose|k: int|
                    0 <= k < earlier.len() && forms(style, earlier)[k]
                        == normal_form(style, texts[last]);
                assert(earlier[k] == shorter[before[k]]);
                assert(normal_form(style, texts[before[k]]) == normal_form(style, texts[last]));
            }
            if !here(last) {
                let j = choose|j: int|
                    0 <= j < last && normal_form(style, #[trigger] texts[j]) == normal_form(
                        style,
                        texts[last],
                    );
                assert(shorter[j] == texts[j]);
                let k = choose|k: int|
                    0 <= k < earlier.len() && normal_form(style, #[trigger] earlier[k])
                        == normal_form(style, shorter[j]);
                assert(forms(style, earlier)[k] == normal_form(style, texts[last]));
            }
        }
        let kept = picks_grow(before, last, then, here);
        let all = first_spellings(style, texts);
        assert forall|i: int| #![trigger texts[i]] 0 <= i < texts.len() implies exists|k: int|
            0 <= k < all.len() && normal_form(style, #[trigger] all[k]) == normal_form(
                style,
                texts[i],
            ) by {
            if i < last {
                assert(shorter[i] == texts[i]);
                let k = choose|k: int|
                    0 <= k < earlier.len() && normal_form(style, #[trigger] earlier[k])
                        == normal_form(style, shorter[i]);
                assert(all[k] == earlier[k]);
            } else if here(last) {
                assert(all[all.len() - 1] == texts[i]);
            } else {
                let k = choose|k: int|
                    0 <= k < earlier.len() && forms(style, earlier)[k]
                        == normal_form(style, texts[last]);
                assert(normal_form(style, earlier[k]) == normal_form(style, texts[last]));
                assert(all[k] == earlier[k]);
            }
        }
        kept
    }
}

/// The directories that several library files name are those that each names,
/// one file after the other; a file that could not be read names none.
pub proof fn library_files_add_up(
    style: PathStyle,
    first: Seq<LibraryRead>,
    last: Seq<LibraryRead>,
)
    ensures
        named_directories(style, first + last) == named_directories(style, first)
            + named_directories(style, last),
        last.len() == 0 ==> named_directories(style, last).len() == 0,
        last.len() == 1 ==> match last[0].read {
            Some(Ok(contents)) => {
                let texts = first_spellings(style, library_texts(tokens_of(contents@)));
                &&& named_directories(style, last).len() == texts.len()
                &&& forall|k: int|
                    0 <= k < texts.len() ==> #[trigger] named_directories(style, last)[k]
                        == steamapps_in(style, texts[k])
            },
            _ => named_directories(style, last).len() == 0,
        },
    decreases last.len(),
{
    if last.len() == 0 {
        assert(first + last =~= first);
        assert(named_directories(style, first) + named_directories(style, last)
            =~= named_directories(style, first));
    } else {
        let shorter = last.drop_last();
        library_files_add_up(style, first, shorter);
        assert((first + last).drop_last() =~= first + shorter);
        assert((first + last).last() == last.last());
        assert(named_directories(style, first + last) =~= named_directories(style, first)
            + named_directories(style, last));
        if last.len() == 1 {
            assert(shorter =~= Seq::empty());
        }
    }
}

/// Each library file that is there but could not be read is told of, in order,
/// and nothing else is.
pub proof fn every_library_fault_is_told(reads: Seq<LibraryRead>) -> (faults: Seq<int>)
    ensures
        picks(faults, reads.len() as int, |i: int| reads[i].read matches Some(Err(_))),
        read_errors(reads).len() == faults.len(),
        forall|k: int|
            0 <= k < faults.len() ==> #[trigger] read_errors(reads)[k] == reads[faults[k]].shown@
                + ": "@ + reads[faults[k]].read->0->Err_0@,
    decreases reads.len(),
{
    let here = |i: int| reads[i].read matches Some(Err(_));
    if reads.len() == 0 {
        picks_nothing(here);
        Seq::empty()
    } else {
        let shorter = reads.drop_last();
        let before = every_library_fault_is_told(shorter);
        picks_grow(
            before,
            shorter.len() as int,
            |i: int| shorter[i].read matches Some(Err(_)),
            here,
        )
    }
}

proof fn games_are_found(games: Seq<GameInstall>, id: Seq<char>)
    ensures
        0 <= game_position(games, id) <= games.len(),
        game_position(games, id) < games.len() ==> games[game_position(games, id)].id@ == id,
        forall|i: int| 0 <= i < game_position(games, id) ==> (#[trigger] games[i]).id@ != id,
    decreases games.len(),
{
    if games.len() > 0 {
        let shorter = games.drop_last();
        games_are_found(shorter, id);
        assert forall|i: int| 0 <= i < game_position(games, id) implies (
        #[trigger] games[i]).id@ != id by {
            if i < shorter.len() {
                assert(shorter[i] == games[i]);
            }
        }
    }
}

/// Listing a game lists it, once where no game was listed twice, and leaves
/// the games with other identifiers where they are.
pub proof fn a_listed_game_is_there(games: Seq<GameInstall>, game: GameInstall)
    ensures
        with_game(games, game).contains(game),
        forall|i: int|
            0 <= i < games.len() && (#[trigger] games[i]).id@ != game.id@ ==> with_game(
                games,
                game,
            )[i] == games[i],
        (exists|i: int| 0 <= i < games.len() && (#[trigger] games[i]).id@ == game.id@)
            ==> with_game(games, game).len() == games.len(),
        (forall|i: int| 0 <= i < games.len() ==> (#[trigger] games[i]).id@ != game.id@)
            ==> with_game(games, game) == games.push(game),
{
    games_are_found(games, game.id@);
    let at = game_position(games, game.id@);
    assert(with_game(games, game)[at] == game);
}

/// A game goes exactly where it follows one with the same identifier.
pub proof fn only_repeats_go(games: Seq<GameInstall>) -> (kept: Seq<int>)
    ensures
        picks(
            kept,
            games.len() as int,
            |i: int| i == 0 || games[i - 1].id@ != games[i].id@,
        ),
        without_repeats(games).len() == kept.len(),
        forall|k: int|
            0 <= k < kept.len() ==> #[trigger] without_repeats(games)[k] == games[kept[k]],
        games.len() > 0 ==> without_repeats(games).len() > 0 && without_repeats(games).last().id@
            == games.last().id@,
    decreases games.len(),
{
    let here = |i: int| i == 0 || games[i - 1].id@ != games[i].id@;
    if games.len() == 0 {
        picks_nothing(here);
        Seq::empty()
    } else {
        let shorter = games.drop_last();
        let before = only_repeats_go(shorter);
        let then = |i: int| i == 0 || shorter[i - 1].id@ != shorter[i].id@;
        picks_grow(before, shorter.len() as int, then, here)
    }
}

/// How a token is written between quotes: with a backslash before each quote.
pub open spec fn quoted(token: Seq<char>) -> Seq<char>
    decreases token.len(),
{
    if token.len() == 0 {
        token
    } else if token[0] == '"' {
        seq!['\\', '"'] + quoted(token.skip(1))
    } else {
        seq![token[0]] + quoted(token.skip(1))
    }
}

proof fn a_quoted_token_is_taken(token: Seq<char>, rest: Seq<char>)
    requires
        token.len() > 0 ==> token.last() != '\\',
    ensures
        token_at(quoted(token) + seq!['"'] + rest) == (token, rest),
    decreases token.len(),
{
    let text = quoted(token) + seq!['"'] + rest;
    if token.len() == 0 {
        assert(text[0] == '"');
        assert(text.skip(1) =~= rest);
        assert(token =~= Seq::<char>::empty());
    } else {
        let more = token.skip(1);
        assert(more.len() > 0 ==> more.last() == token.last());
        a_quoted_token_is_taken(more, rest);
        let tail = quoted(more) + seq!['"'] + rest;
        if token[0] == '"' {
            assert(text =~= seq!['\\', '"'] + tail);
            assert(text.skip(2) =~= tail);
            assert(seq!['"'] + more =~= token);
        } else {
            assert(text =~= seq![token[0]] + tail);
            assert(text.skip(1) =~= tail);
            if token[0] == '\\' {
                assert(more.len() > 0);
                assert(quoted(more).len() > 0);
                assert(text[1] == tail[0]);
                assert(tail[0] == quoted(more)[0]);
                assert(tail[0] != '"');
            }
            assert(seq![token[0]] + more =~= token);
        }
    }
}

/// What is written between quotes is read back as a token, whatever lies
/// between it and the token before; what is not between quotes is not. A token
/// that ends in a backslash would hide its closing quote.
pub proof fn written_tokens_are_read_back(gap: Seq<char>, token: Seq<char>, rest: Seq<char>)
    requires
        !gap.contains('"'),
        token.len() > 0 ==> token.last() != '\\',
    ensures
        tokens_of(gap).len() == 0,
        tokens_of(gap + (seq!['"'] + (quoted(token) + seq!['"'] + rest))) == seq![token]
            + tokens_of(rest),
    decreases gap.len(),
{
    let body = quoted(token) + seq!['"'] + rest;
    let text = gap + (seq!['"'] + body);
    if gap.len() == 0 {
        a_quoted_token_is_taken(token, rest);
        assert(text[0] == '"');
        assert(text.skip(1) =~= body);
    } else {
        let less = gap.skip(1);
        assert(gap[0] != '"') by {
            assert(gap.contains(gap[0]));
        }
        assert(!less.contains('"')) by {
            if less.contains('"') {
                let i = choose|i: int| 0 <= i < less.len() && less[i] == '"';
                assert(gap[i + 1] == '"');
            }
        }
        written_tokens_are_read_back(less, token, rest);
        assert(text.skip(1) =~= less + (seq!['"'] + body));
    }
}

/// A text in which each backslash is written twice.
pub open spec fn doubled(text: Seq<char>) -> Seq<char>
    decreases text.len(),
{
    if text.len() == 0 {
        text
    } else if text[0] == '\\' {
        seq!['\\', '\\'] + doubled(text.skip(1))
    } else {
        seq![text[0]] + doubled(text.skip(1))
    }
}

/// A path that was written with each backslash twice is read back as it was.
/// One without two backslashes in a row is read as it stands.
pub proof fn written_paths_are_read_back(text: Seq<char>)
    ensures
        unescaped(doubled(text)) == text,
        (forall|i: int, j: int|
            0 <= i < text.len() && j == i + 1 && j < text.len() ==> !(#[trigger] text[i] == '\\'
                && #[trigger] text[j] == '\\')) ==> unescaped(text) == text,
    decreases text.len(),
{
    if text.len() > 0 {
        let more = text.skip(1);
        written_paths_are_read_back(more);
        if text[0] == '\\' {
            assert(doubled(text).skip(2) =~= doubled(more));
        } else {
            assert(doubled(text).skip(1) =~= doubled(more));
        }
        assert(seq![text[0]] + more =~= text);
        if forall|i: int, j: int|
            0 <= i < text.len() && j == i + 1 && j < text.len() ==> !(#[trigger] text[i] == '\\'
                && #[trigger] text[j] == '\\') {
            assert forall|i: int, j: int|
                0 <= i < more.len() && j == i + 1 && j < more.len() implies !(#[trigger] more[i]
                == '\\' && #[trigger] more[j] == '\\') by {
                assert(more[i] == text[i + 1]);
                assert(more[j] == text[j + 1]);
            }
        }
    }
}

/// The game with an identifier is the first one that has it.
pub proof fn the_first_game_counts(games: Seq<GameInstall>, id: Seq<char>) -> (at: int)
    ensures
        at == game_position(games, id),
        0 <= at <= games.len(),
        at < games.len() ==> games[at].id@ == id,
        forall|i: int| 0 <= i < at ==> (#[trigger] games[i]).id@ != id,
    decreases games.len(),
{
    if games.len() == 0 {
        0
    } else {
        let shorter = games.drop_last();
        let before = the_first_game_counts(shorter, id);
        assert forall|i: int| 0 <= i < before implies (#[trigger] games[i]).id@ != id by {
            assert(shorter[i] == games[i]);
        }
        if before < shorter.len() {
            assert(shorter[before] == games[before]);
        }
        game_position(games, id)
    }
}

/// A Steam game is in the folder that its manifest names, among the common
/// games of its library.
pub proof fn steam_games_are_among_the_common_ones(
    tokens: Seq<Seq<char>>,
    steamapps: Seq<char>,
    folder: Seq<char>,
)
    requires
        value_of(tokens, "installdir"@) == Some(folder),
        folder.len() > 0,
        folder != seq!['.'],
        !folder.contains('/'),
        steamapps.len() > 0,
        steamapps.last() != '/',
    ensures
        described_app(PathStyle::Unix, tokens, steamapps).root == steamapps + "/common/"@ + folder,
        value_of(tokens, "appid"@) matches Some(id) ==> described_app(
            PathStyle::Unix,
            tokens,
            steamapps,
        ).app_id == id,
        value_of(tokens, "name"@) matches Some(title) ==> described_app(
            PathStyle::Unix,
            tokens,
            steamapps,
        ).title == title,
{
    reveal_strlit("common");
    reveal_strlit("/common/");
    let parts = seq![folder];
    let common = joined(steamapps, "common"@);
    crate::paths::texts_lead_below_or_elsewhere(common, parts);
    assert(crate::text::joined_with(parts, seq!['/']) == folder);
    reveal_with_fuel(crate::paths::saying_parts, 2);
    assert(crate::paths::saying_parts(parts) =~= parts);
    assert(common.last() == 'n');
    assert(joined(common, folder) =~= steamapps + "/common/"@ + folder);
}

/// Sorting games by name loses none and doubles none, and no game stands
/// behind one whose name comes after its own, whatever the case of the letters.
pub proof fn games_are_sorted_by_name(games: Seq<GameInstall>, sorted: Seq<GameInstall>) -> (order:
    Seq<usize>)
    requires
        is_sorted_by(games, lower_names(games), sorted),
    ensures
        sorted.len() == games.len(),
        order.len() == games.len(),
        forall|i: int| 0 <= i < order.len() ==> #[trigger] order[i] < games.len(),
        forall|i: int, j: int| 0 <= i < j < order.len() ==> order[i] != order[j],
        forall|i: int|
            0 <= i < sorted.len() ==> {
                let game = games[order[i] as int];
                &&& (#[trigger] sorted[i]).id == game.id
                &&& sorted[i].name == game.name
                &&& sorted[i].root == game.root
                &&& sorted[i].store == game.store
            },
        forall|i: int, j: int|
            0 <= i < j < sorted.len() ==> !precedes(
                code_points(lowercase((#[trigger] sorted[j]).name@)),
                code_points(lowercase((#[trigger] sorted[i]).name@)),
            ),
{
    let folded = lower_names(games);
    let order = choose|order: Seq<usize>|
        #![trigger is_stable_order(text_keys(folded), false, order)]
        is_stable_order(text_keys(folded), false, order) && is_arranged(games, order, sorted);
    stable_orders_are_sorted(text_keys(folded), false, order);
    assert forall|i: int, j: int| 0 <= i < j < sorted.len() implies !precedes(
        code_points(lowercase((#[trigger] sorted[j]).name@)),
        code_points(lowercase((#[trigger] sorted[i]).name@)),
    ) by {
        assert(order[i] != order[j]);
        assert(same_game(sorted[i], games[order[i] as int]));
        assert(same_game(sorted[j], games[order[j] as int]));
        assert(text_keys(folded)[order[i] as int].first == folded[order[i] as int]);
        assert(text_keys(folded)[order[j] as int].first == folded[order[j] as int]);
    }
    assert forall|i: int| 0 <= i < sorted.len() implies {
        let game = games[order[i] as int];
        &&& (#[trigger] sorted[i]).id == game.id
        &&& sorted[i].name == game.name
        &&& sorted[i].root == game.root
        &&& sorted[i].store == game.store
    } by {
        assert(same_game(sorted[i], games[order[i] as int]));
    }
    order
}

/// Where neither place of the registry says where Steam is, each failure that
/// is more than a missing key is told, the user's place first.
pub proof fn every_registry_fault_is_told(user: RegistryError, machine: RegistryError)
    ensures
        ({
            let told = steam_registry_errors(user, machine);
            let user_missing = user.code == -2147024894 || user.code == -2147024893;
            let machine_missing = machine.code == -2147024894 || machine.code == -2147024893;
            &&& user_missing && machine_missing <==> told.len() == 0
            &&& !user_missing ==> told.len() > 0 && told[0] == "HKCU: "@ + user.text@
            &&& !machine_missing ==> told.len() > 0 && told.last() == "HKLM: "@ + machine.text@
            &&& !user_missing && !machine_missing <==> told.len() == 2
        }),
{
}

/// The games of all stores are listed by name, and one goes only where it
/// follows another with the same identifier.
pub proof fn every_store_game_is_listed(
    games: Seq<GameInstall>,
    sorted: Seq<GameInstall>,
    kept: Seq<GameInstall>,
    i: int,
)
    requires
        is_concluded(games, sorted, kept),
        0 <= i < games.len(),
    ensures
        exists|k: int| 0 <= k < kept.len() && (#[trigger] kept[k]).id@ == games[i].id@,
        kept.len() <= games.len(),
{
    let order = games_are_sorted_by_name(games, sorted);
    let folded = lower_names(games);
    let arrangement = choose|order: Seq<usize>|
        #![trigger is_stable_order(text_keys(folded), false, order)]
        is_stable_order(text_keys(folded), false, order) && is_arranged(games, order, sorted);
    stable_orders_are_sorted(text_keys(folded), false, arrangement);
    assert(crate::order::lists(arrangement, i));
    let at = choose|at: int| 0 <= at < arrangement.len() && #[trigger] arrangement[at] == i;
    assert(same_game(sorted[at], games[arrangement[at] as int]));
    repeats_keep_their_first(sorted, at);
    let k = choose|k: int| 0 <= k < kept.len() && (#[trigger] kept[k]).id@ == sorted[at].id@;
    assert(kept[k].id@ == games[i].id@);
    picks_are_few(sorted);
}

proof fn picks_are_few(games: Seq<GameInstall>)
    ensures
        without_repeats(games).len() <= games.len(),
    decreases games.len(),
{
    if games.len() > 0 {
        picks_are_few(games.drop_last());
    }
}

proof fn repeats_keep_their_first(games: Seq<GameInstall>, at: int)
    requires
        0 <= at < games.len(),
    ensures
        exists|k: int|
            0 <= k < without_repeats(games).len() && (#[trigger] without_repeats(games)[k]).id@
                == games[at].id@,
    decreases games.len(),
{
    let kept = without_repeats(games);
    if at == games.len() - 1 {
        let picked = only_repeats_go(games);
        assert(kept[kept.len() - 1].id@ == games[at].id@);
    } else {
        let shorter = games.drop_last();
        repeats_keep_their_first(shorter, at);
        let before = without_repeats(shorter);
        let k = choose|k: int| 0 <= k < before.len() && (#[trigger] before[k]).id@ == shorter[at].id@;
        assert(kept[k] == before[k]);
        assert(shorter[at] == games[at]);
    }
}

} // verus!
