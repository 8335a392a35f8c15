//! What holds of the review as a whole: which rows it lists, what each asks for,
//! and what the checked rows come to.

use crate::imports::ImportedDllRecord;
use crate::library::GameRow;
use crate::lists::{first_is_wanted, first_where, picks, picks_grow, picks_nothing};
use crate::model::{
    BackupRecord, CachedRelease, CatalogDll, DesiredDll, DllInstallation, GameId, PlannedSwap,
};
use crate::order::{code_points, goes_before, is_stable_order, precedes, stable_orders_are_sorted};
use crate::planning::{upgrades_of, ProfileOutcome};
use crate::profile::TargetProfile;
use crate::review::{
    all_staged_rows, all_update_rows, are_ordered, checked_count, choice_for, dll_with_id,
    game_runs, game_with_id, holds_name, imported_version, is_backup_of, is_checked_risk,
    is_dll, is_game, is_of_game, is_review_of, known_version, lists_cached, names_ascend,
    place_keys, preview_error_wording, previewed, released_dlls, rows_at,
    runs_partition_the_rows, staged_errors, staged_rows, update_rows, version_in, ReviewContent,
    ReviewIntent, ReviewRow, ReviewSources,
};
use vstd::prelude::*;

verus! {

/// A game is found under its identifier, the first one where several have it,
/// and none is found only where none has it. So is a DLL.
pub proof fn games_and_dlls_are_found(
    games: Seq<GameRow>,
    dlls: Seq<DllInstallation>,
    id: Seq<char>,
) -> (at: (int, int))
    ensures
        game_with_id(games, id) is None ==> forall|i: int|
            0 <= i < games.len() ==> (#[trigger] games[i]).id@ != id,
        game_with_id(games, id) is Some ==> 0 <= at.0 < games.len() && game_with_id(games, id)
            == Some(games[at.0]) && games[at.0].id@ == id && (forall|i: int|
            0 <= i < at.0 ==> (#[trigger] games[i]).id@ != id),
        dll_with_id(dlls, id) is None ==> forall|i: int|
            0 <= i < dlls.len() ==> (#[trigger] dlls[i]).id@ != id,
        dll_with_id(dlls, id) is Some ==> 0 <= at.1 < dlls.len() && dll_with_id(dlls, id) == Some(
            dlls[at.1],
        ) && dlls[at.1].id@ == id && (forall|i: int|
            0 <= i < at.1 ==> (#[trigger] dlls[i]).id@ != id),
{
    first_is_wanted(games, is_game(id));
    first_is_wanted(dlls, is_dll(id));
    let game = first_where(games, is_game(id));
    let dll = first_where(dlls, is_dll(id));
    assert forall|i: int| 0 <= i < game implies (#[trigger] games[i]).id@ != id by {
        assert(!is_game(id)(games[i]));
    }
    assert forall|i: int| 0 <= i < dll implies (#[trigger] dlls[i]).id@ != id by {
        assert(!is_dll(id)(dlls[i]));
    }
    (game, dll)
}

/// The version of a content is that of the first DLL of a release with its
/// digest.
pub proof fn the_first_content_has_the_version(dlls: Seq<CatalogDll>, sha256: [u8; 32]) -> (at: int)
    ensures
        version_in(dlls, sha256) is Some ==> 0 <= at < dlls.len() && dlls[at].sha256 == sha256
            && version_in(dlls, sha256) == Some(dlls[at].version) && (forall|i: int|
            0 <= i < at ==> (#[trigger] dlls[i]).sha256 != sha256),
        version_in(dlls, sha256) is None ==> forall|i: int|
            0 <= i < dlls.len() ==> (#[trigger] dlls[i]).sha256 != sha256,
    decreases dlls.len(),
{
    if dlls.len() == 0 {
        0
    } else {
        let shorter = dlls.drop_last();
        let before = the_first_content_has_the_version(shorter, sha256);
        assert forall|i: int| 0 <= i < shorter.len() implies shorter[i] == #[trigger] dlls[i] by {
        }
        if version_in(shorter, sha256) is Some {
            before
        } else {
            dlls.len() - 1
        }
    }
}

/// The version of a content is that of the first import with its digest.
pub proof fn the_first_import_has_the_version(
    imports: Seq<ImportedDllRecord>,
    sha256: [u8; 32],
) -> (at: int)
    ensures
        imported_version(imports, sha256) is Some ==> 0 <= at < imports.len()
            && imports[at].sha256 == sha256 && imported_version(imports, sha256) == Some(
            imports[at].version,
        ) && (forall|i: int| 0 <= i < at ==> (#[trigger] imports[i]).sha256 != sha256),
        imported_version(imports, sha256) is None ==> forall|i: int|
            0 <= i < imports.len() ==> (#[trigger] imports[i]).sha256 != sha256,
    decreases imports.len(),
{
    if imports.len() == 0 {
        0
    } else {
        let shorter = imports.drop_last();
        let before = the_first_import_has_the_version(shorter, sha256);
        assert forall|i: int| 0 <= i < shorter.len() implies shorter[i]
            == #[trigger] imports[i] by {
        }
        if imported_version(shorter, sha256) is Some {
            before
        } else {
            imports.len() - 1
        }
    }
}

/// The version of a content is looked for in the releases, then in the imports,
/// then in the backups; the first that has the content decides.
pub proof fn versions_are_looked_up_in_order(
    releases: Seq<CachedRelease>,
    imports: Seq<ImportedDllRecord>,
    backups: Seq<BackupRecord>,
    sha256: [u8; 32],
)
    ensures
        ({
            let released = released_dlls(releases);
            let known = known_version(releases, imports, backups, sha256);
            &&& forall|i: int|
                0 <= i < released.len() && (#[trigger] released[i]).sha256 == sha256 && (forall|
                    j: int,
                |
                    0 <= j < i ==> (#[trigger] released[j]).sha256 != sha256) ==> known == Some(
                    released[i].version,
                )
            &&& (forall|i: int| 0 <= i < released.len() ==> (#[trigger] released[i]).sha256 != sha256)
                ==> {
                &&& forall|i: int|
                    0 <= i < imports.len() && (#[trigger] imports[i]).sha256 == sha256 && (forall|
                        j: int,
                    |
                        0 <= j < i ==> (#[trigger] imports[j]).sha256 != sha256) ==> known == Some(
                        imports[i].version,
                    )
                &&& (forall|i: int|
                    0 <= i < imports.len() ==> (#[trigger] imports[i]).sha256 != sha256) ==> {
                    &&& forall|i: int|
                        0 <= i < backups.len() && (#[trigger] backups[i]).sha256 == sha256 && (
                        forall|j: int| 0 <= j < i ==> (#[trigger] backups[j]).sha256 != sha256)
                            ==> known == backups[i].version
                    &&& (forall|i: int|
                        0 <= i < backups.len() ==> (#[trigger] backups[i]).sha256 != sha256)
                        ==> known is None
                }
            }
        }),
{
    let released = released_dlls(releases);
    let one = the_first_content_has_the_version(released, sha256);
    let two = the_first_import_has_the_version(imports, sha256);
    first_is_wanted(backups, is_backup_of(sha256));
    let three = first_where(backups, is_backup_of(sha256));
    if version_in(released, sha256) is Some {
        assert(released[one].sha256 == sha256);
    }
    if imported_version(imports, sha256) is Some {
        assert(imports[two].sha256 == sha256);
    }
    if three < backups.len() {
        assert(is_backup_of(sha256)(backups[three]));
        assert(backups[three].sha256 == sha256);
    }
    assert forall|i: int| 0 <= i < three implies (#[trigger] backups[i]).sha256 != sha256 by {
        assert(!is_backup_of(sha256)(backups[i]));
    }
}

/// The DLLs of several releases are those of each, one release after the other.
pub proof fn released_dlls_add_up(first: Seq<CachedRelease>, last: Seq<CachedRelease>)
    ensures
        released_dlls(first + last) == released_dlls(first) + released_dlls(last),
        last.len() == 0 ==> released_dlls(last).len() == 0,
        last.len() == 1 ==> released_dlls(last) == last[0].dlls@,
    decreases last.len(),
{
    if last.len() == 0 {
        assert(first + last =~= first);
        assert(released_dlls(first) + released_dlls(last) =~= released_dlls(first));
    } else {
        let shorter = last.drop_last();
        released_dlls_add_up(first, shorter);
        assert((first + last).drop_last() =~= first + shorter);
        assert((first + last).last() == last.last());
        assert(released_dlls(first + last) =~= released_dlls(first) + released_dlls(last));
        if last.len() == 1 {
            assert(shorter =~= Seq::empty());
            assert(released_dlls(last) =~= last[0].dlls@);
        }
    }
}

/// Whether a row shows a swap of a game: of which DLL it is, what is installed,
/// what it would mean, and that it is checked until the user says otherwise.
pub open spec fn shows_swap(
    row: ReviewRow,
    game: GameRow,
    installed: DllInstallation,
    swap: PlannedSwap,
) -> bool {
    &&& row.game_id == game.id
    &&& row.game_name == game.name
    &&& row.known_risk == game.known_risk
    &&& row.dll_id == swap.installation
    &&& row.comparison == swap.comparison
    &&& row.file_name == installed.file_name
    &&& row.installed == installed.metadata.version
    &&& row.checked
}

/// Each one-click swap of a DLL of the game has its row, in order, and nothing
/// else has one. The row shows the version that the release has of the content
/// and pins that content.
pub proof fn every_update_has_a_row(
    game: GameRow,
    swaps: Seq<PlannedSwap>,
    release: CachedRelease,
) -> (shown: Seq<int>)
    ensures
        picks(
            shown,
            swaps.len() as int,
            |i: int| dll_with_id(game.details@, swaps[i].installation@) is Some,
        ),
        update_rows(game, swaps, release).len() == shown.len(),
        forall|k: int|
            #![trigger update_rows(game, swaps, release)[k]]
            0 <= k < shown.len() ==> {
                let row = update_rows(game, swaps, release)[k];
                let swap = swaps[shown[k]];
                &&& shows_swap(row, game, dll_with_id(game.details@, swap.installation@)->0, swap)
                &&& row.target == version_in(release.dlls@, swap.source_sha256)
                &&& row.desired == (DesiredDll::Cached {
                    release: release.metadata.id,
                    sha256: swap.source_sha256,
                })
            },
    decreases swaps.len(),
{
    let here = |i: int| dll_with_id(game.details@, swaps[i].installation@) is Some;
    if swaps.len() == 0 {
        picks_nothing(here);
        Seq::empty()
    } else {
        let shorter = swaps.drop_last();
        let before = every_update_has_a_row(game, shorter, release);
        picks_grow(
            before,
            shorter.len() as int,
            |i: int| dll_with_id(game.details@, shorter[i].installation@) is Some,
            here,
        )
    }
}

/// Each staged swap of a DLL of the game has its row, in order, and nothing
/// else has one. The row shows the version that is known of the content and
/// asks for what is staged.
pub proof fn every_staged_swap_has_a_row(
    game: GameRow,
    swaps: Seq<PlannedSwap>,
    sources: ReviewSources,
    profile: TargetProfile,
) -> (shown: Seq<int>)
    ensures
        picks(
            shown,
            swaps.len() as int,
            |i: int| dll_with_id(game.details@, swaps[i].installation@) is Some,
        ),
        staged_rows(game, swaps, sources, profile).len() == shown.len(),
        forall|k: int|
            #![trigger staged_rows(game, swaps, sources, profile)[k]]
            0 <= k < shown.len() ==> {
                let row = staged_rows(game, swaps, sources, profile)[k];
                let swap = swaps[shown[k]];
                &&& shows_swap(row, game, dll_with_id(game.details@, swap.installation@)->0, swap)
                &&& row.target == known_version(
                    sources.releases@,
                    sources.imports@,
                    sources.backups@,
                    swap.source_sha256,
                )
                &&& profile.staged(swap.installation@) matches Some(desired) ==> row.desired
                    == desired
                &&& profile.staged(swap.installation@) is None ==> row.desired
                    == DesiredDll::KeepInstalled
            },
    decreases swaps.len(),
{
    let here = |i: int| dll_with_id(game.details@, swaps[i].installation@) is Some;
    if swaps.len() == 0 {
        picks_nothing(here);
        Seq::empty()
    } else {
        let shorter = swaps.drop_last();
        let before = every_staged_swap_has_a_row(game, shorter, sources, profile);
        picks_grow(
            before,
            shorter.len() as int,
            |i: int| dll_with_id(game.details@, shorter[i].installation@) is Some,
            here,
        )
    }
}

/// A row counts exactly where it is checked.
pub proof fn every_checked_row_counts(rows: Seq<ReviewRow>) -> (checked: Seq<int>)
    ensures
        picks(checked, rows.len() as int, |i: int| rows[i].checked),
        checked_count(rows) == checked.len(),
    decreases rows.len(),
{
    let here = |i: int| rows[i].checked;
    if rows.len() == 0 {
        picks_nothing(here);
        Seq::empty()
    } else {
        let shorter = rows.drop_last();
        let before = every_checked_row_counts(shorter);
        picks_grow(before, shorter.len() as int, |i: int| shorter[i].checked, here)
    }
}

/// The rows of the one-click updates of several games are those of each, one
/// game after the other; a game that is gone has none.
pub proof fn update_rows_add_up(
    first: Seq<GameId>,
    last: Seq<GameId>,
    games: Seq<GameRow>,
    release: CachedRelease,
    dlss_only: bool,
)
    ensures
        all_update_rows(first + last, games, release, dlss_only) == all_update_rows(
            first,
            games,
            release,
            dlss_only,
        ) + all_update_rows(last, games, release, dlss_only),
        last.len() == 0 ==> all_update_rows(last, games, release, dlss_only).len() == 0,
        last.len() == 1 ==> match game_with_id(games, last[0]@) {
            Some(game) => all_update_rows(last, games, release, dlss_only) == update_rows(
                game,
                upgrades_of(game.details@, release.dlls@, dlss_only),
                release,
            ),
            None => all_update_rows(last, games, release, dlss_only).len() == 0,
        },
    decreases last.len(),
{
    if last.len() == 0 {
        assert(first + last =~= first);
        assert(all_update_rows(first, games, release, dlss_only) + all_update_rows(
            last,
            games,
            release,
            dlss_only,
        ) =~= all_update_rows(first, games, release, dlss_only));
    } else {
        let shorter = last.drop_last();
        update_rows_add_up(first, shorter, games, release, dlss_only);
        assert((first + last).drop_last() =~= first + shorter);
        assert((first + last).last() == last.last());
        assert(all_update_rows(first + last, games, release, dlss_only) =~= all_update_rows(
            first,
            games,
            release,
            dlss_only,
        ) + all_update_rows(last, games, release, dlss_only));
        if last.len() == 1 {
            assert(shorter =~= Seq::empty());
            if let Some(game) = game_with_id(games, last[0]@) {
                assert(all_update_rows(last, games, release, dlss_only) =~= update_rows(
                    game,
                    upgrades_of(game.details@, release.dlls@, dlss_only),
                    release,
                ));
            }
        }
    }
}

/// The rows and the errors of the staged changes of several games are those of
/// each, one game after the other: rows where its choices can be met, one error
/// where they cannot, and neither where the game is gone.
pub proof fn staged_rows_add_up(
    first: Seq<GameId>,
    last: Seq<GameId>,
    games: Seq<GameRow>,
    sources: ReviewSources,
    profile: TargetProfile,
)
    ensures
        all_staged_rows(first + last, games, sources, profile) == all_staged_rows(
            first,
            games,
            sources,
            profile,
        ) + all_staged_rows(last, games, sources, profile),
        staged_errors(first + last, games, sources, profile) == staged_errors(
            first,
            games,
            sources,
            profile,
        ) + staged_errors(last, games, sources, profile),
        last.len() == 0 ==> all_staged_rows(last, games, sources, profile).len() == 0
            && staged_errors(last, games, sources, profile).len() == 0,
        last.len() == 1 ==> match game_with_id(games, last[0]@) {
            Some(game) => match previewed(game, sources, profile) {
                ProfileOutcome::Swaps(swaps) => all_staged_rows(last, games, sources, profile)
                    == staged_rows(game, swaps, sources, profile) && staged_errors(
                    last,
                    games,
                    sources,
                    profile,
                ).len() == 0,
                ProfileOutcome::Refused(reason) => all_staged_rows(
                    last,
                    games,
                    sources,
                    profile,
                ).len() == 0 && staged_errors(last, games, sources, profile) == seq![
                    game.name@ + ": "@ + preview_error_wording("validation failed: "@ + reason),
                ],
            },
            None => all_staged_rows(last, games, sources, profile).len() == 0 && staged_errors(
                last,
                games,
                sources,
                profile,
            ).len() == 0,
        },
    decreases last.len(),
{
    let rows = all_staged_rows(last, games, sources, profile);
    let errors = staged_errors(last, games, sources, profile);
    if last.len() == 0 {
        assert(first + last =~= first);
        assert(all_staged_rows(first, games, sources, profile) + rows =~= all_staged_rows(
            first,
            games,
            sources,
            profile,
        ));
        assert(staged_errors(first, games, sources, profile) + errors =~= staged_errors(
            first,
            games,
            sources,
            profile,
        ));
    } else {
        let shorter = last.drop_last();
        staged_rows_add_up(first, shorter, games, sources, profile);
        assert((first + last).drop_last() =~= first + shorter);
        assert((first + last).last() == last.last());
        assert(all_staged_rows(first + last, games, sources, profile) =~= all_staged_rows(
            first,
            games,
            sources,
            profile,
        ) + rows);
        assert(staged_errors(first + last, games, sources, profile) =~= staged_errors(
            first,
            games,
            sources,
            profile,
        ) + errors);
        if last.len() == 1 {
            assert(shorter =~= Seq::empty());
            if let Some(game) = game_with_id(games, last[0]@) {
                match previewed(game, sources, profile) {
                    ProfileOutcome::Swaps(swaps) => {
                        assert(rows =~= staged_rows(game, swaps, sources, profile));
                    },
                    ProfileOutcome::Refused(reason) => {
                        assert(errors =~= seq![
                            game.name@ + ": "@ + preview_error_wording(
                                "validation failed: "@ + reason,
                            ),
                        ]);
                    },
                }
            }
        }
    }
}

/// Ordering rows loses none and doubles none.
pub proof fn ordering_keeps_every_row(before: Seq<ReviewRow>, after: Seq<ReviewRow>) -> (order: Seq<
    usize,
>)
    requires
        are_ordered(before, after),
    ensures
        after.len() == before.len(),
        order.len() == before.len(),
        forall|i: int| 0 <= i < order.len() ==> #[trigger] order[i] < before.len(),
        forall|i: int, j: int| 0 <= i < j < order.len() ==> order[i] != order[j],
        forall|i: int| 0 <= i < after.len() ==> #[trigger] after[i] == before[order[i] as int],
        forall|k: int| 0 <= k < before.len() ==> after.contains(#[trigger] before[k]),
{
    let order = choose|order: Seq<usize>|
        #![trigger rows_at(before, order)]
        is_stable_order(place_keys(before), false, order) && after == rows_at(before, order);
    stable_orders_are_sorted(place_keys(before), false, order);
    assert forall|k: int| 0 <= k < before.len() implies after.contains(#[trigger] before[k]) by {
        assert(crate::order::lists(order, k));
        let i = choose|i: int| 0 <= i < order.len() && #[trigger] order[i] == k;
        assert(after[i] == before[k]);
    }
    order
}

/// Ordered rows list the games in the order in which they first came.
pub proof fn games_keep_their_order(
    before: Seq<ReviewRow>,
    after: Seq<ReviewRow>,
    early: int,
    late: int,
    other: int,
) -> (first: int)
    requires
        are_ordered(before, after),
        0 <= early < late < after.len(),
        after[early].game_id@ != after[late].game_id@,
        0 <= other < before.len(),
        before[other].game_id@ == after[late].game_id@,
    ensures
        0 <= first < other,
        before[first].game_id@ == after[early].game_id@,
{
    let order = choose|order: Seq<usize>|
        #![trigger rows_at(before, order)]
        is_stable_order(place_keys(before), false, order) && after == rows_at(before, order);
    let keys = place_keys(before);
    let one = is_of_game(after[early].game_id@);
    let two = is_of_game(after[late].game_id@);
    first_is_wanted(before, one);
    first_is_wanted(before, two);
    let here = first_where(before, one);
    let there = first_where(before, two);
    assert(goes_before(keys, false, order[early] as int, order[late] as int));
    assert(before[order[early] as int] == after[early]);
    assert(before[order[late] as int] == after[late]);
    assert(one(before[order[early] as int]));
    assert(two(before[order[late] as int]));
    assert(here < before.len());
    assert(there < before.len());
    assert(two(before[other]));
    assert(there <= other);
    assert(keys[order[early] as int].number <= keys[order[late] as int].number);
    assert(here != there) by {
        if here == there {
            assert(one(before[here]) && two(before[there]));
        }
    }
    assert(here < there);
    here
}

/// Runs that follow each other belong to different games.
pub proof fn neighbouring_runs_differ(rows: Seq<ReviewRow>)
    ensures
        forall|i: int, next: int|
            0 <= i && next == i + 1 && next < game_runs(rows).len() ==> rows[(
            #[trigger] game_runs(rows)[i]).0].game_id@ != rows[(#[trigger] game_runs(
                rows,
            )[next]).0].game_id@,
    decreases rows.len(),
{
    if rows.len() > 0 {
        let shorter = rows.drop_last();
        neighbouring_runs_differ(shorter);
        runs_partition_the_rows(shorter);
        let before = game_runs(shorter);
        let runs = game_runs(rows);
        assert forall|i: int, next: int|
            0 <= i && next == i + 1 && next < runs.len() implies rows[(#[trigger] runs[i]).0].game_id@
            != rows[(#[trigger] runs[next]).0].game_id@ by {
            if next < before.len() {
                assert(runs[i].0 == before[i].0);
                assert(runs[next].0 == before[next].0);
                assert(shorter[before[i].0] == rows[runs[i].0]);
                assert(shorter[before[next].0] == rows[runs[next].0]);
            } else {
                assert(before[i] == before.last());
                assert(runs[i].0 == before[i].0);
            }
        }
    }
}

/// What is chosen for a DLL of a game is what the last checked row of it asks
/// for.
pub proof fn the_last_checked_row_decides(
    rows: Seq<ReviewRow>,
    game: Seq<char>,
    dll: Seq<char>,
) -> (at: int)
    ensures
        choice_for(rows, game, dll) is Some ==> 0 <= at < rows.len() && rows[at].checked
            && rows[at].game_id@ == game && rows[at].dll_id@ == dll && choice_for(rows, game, dll)
            == Some(rows[at].desired) && (forall|i: int|
            at < i < rows.len() ==> !((#[trigger] rows[i]).checked && rows[i].game_id@ == game
                && rows[i].dll_id@ == dll)),
        choice_for(rows, game, dll) is None ==> forall|i: int|
            0 <= i < rows.len() ==> !((#[trigger] rows[i]).checked && rows[i].game_id@ == game
                && rows[i].dll_id@ == dll),
    decreases rows.len(),
{
    if rows.len() == 0 {
        0
    } else {
        let shorter = rows.drop_last();
        let before = the_last_checked_row_decides(shorter, game, dll);
        assert forall|i: int| 0 <= i < shorter.len() implies shorter[i] == #[trigger] rows[i] by {
        }
        let last = rows[rows.len() - 1];
        if last.checked && last.game_id@ == game && last.dll_id@ == dll {
            rows.len() - 1
        } else {
            before
        }
    }
}

/// A review lists, for updates, the rows of every game asked for, of the DLSS
/// DLLs or of all; and is not ready before there is a release to compare with.
/// For staged changes it lists the rows of every staged swap and says what is
/// wrong with the others. No row is lost or doubled.
pub proof fn reviews_follow_their_intent(
    intent: ReviewIntent,
    games: Seq<GameRow>,
    sources: ReviewSources,
    profile: TargetProfile,
    content: ReviewContent,
) -> (order: Seq<usize>)
    requires
        is_review_of(intent, games, sources, profile, content),
    ensures
        intent is Profiles ==> content.ready,
        !(intent is Profiles) ==> content.errors.len() == 0 && (content.ready
            <==> sources.latest is Some),
        !(intent is Profiles) && sources.latest is None ==> content.rows.len() == 0,
        ({
            let listed = match intent {
                ReviewIntent::QuickDlss(ids) => if sources.latest is Some {
                    all_update_rows(ids@, games, *sources.latest->0, true)
                } else {
                    Seq::empty()
                },
                ReviewIntent::AllDlls(ids) => if sources.latest is Some {
                    all_update_rows(ids@, games, *sources.latest->0, false)
                } else {
                    Seq::empty()
                },
                ReviewIntent::Profiles(ids) => all_staged_rows(ids@, games, sources, profile),
            };
            &&& content.rows.len() == listed.len()
            &&& order.len() == listed.len()
            &&& forall|i: int| 0 <= i < order.len() ==> #[trigger] order[i] < listed.len()
            &&& forall|i: int, j: int| 0 <= i < j < order.len() ==> order[i] != order[j]
            &&& forall|i: int|
                0 <= i < content.rows.len() ==> #[trigger] content.rows@[i]
                    == listed[order[i] as int]
            &&& forall|k: int|
                0 <= k < listed.len() ==> content.rows@.contains(#[trigger] listed[k])
        }),
{
    match intent {
        ReviewIntent::QuickDlss(ids) => if let Some(release) = sources.latest {
            ordering_keeps_every_row(all_update_rows(ids@, games, *release, true), content.rows@)
        } else {
            Seq::empty()
        },
        ReviewIntent::AllDlls(ids) => if let Some(release) = sources.latest {
            ordering_keeps_every_row(all_update_rows(ids@, games, *release, false), content.rows@)
        } else {
            Seq::empty()
        },
        ReviewIntent::Profiles(ids) => ordering_keeps_every_row(
            all_staged_rows(ids@, games, sources, profile),
            content.rows@,
        ),
    }
}

/// What can be installed from the cache is every DLL of every release, and
/// behind them every import, each from where it is stored.
pub proof fn the_cache_holds_releases_and_imports(
    releases: Seq<CachedRelease>,
    imports: Seq<ImportedDllRecord>,
    cached: Seq<CatalogDll>,
    i: int,
)
    requires
        lists_cached(releases, imports, cached),
        0 <= i < imports.len(),
    ensures
        cached.len() == released_dlls(releases).len() + imports.len(),
        forall|k: int|
            0 <= k < released_dlls(releases).len() ==> #[trigger] cached[k] == released_dlls(
                releases,
            )[k],
        ({
            let entry = cached[released_dlls(releases).len() + i];
            &&& entry.file_name == imports[i].file_name
            &&& entry.version == imports[i].version
            &&& entry.sha256 == imports[i].sha256
            &&& entry.source == imports[i].content_path
        }),
{
    let released = released_dlls(releases);
    assert forall|k: int| 0 <= k < released.len() implies #[trigger] cached[k] == released[k] by {
        assert(cached.take(released.len() as int)[k] == cached[k]);
    }
    assert(crate::imports::is_entry_of(imports[i], cached[released.len() + i]));
}

/// The games that are known to be risky are named where some row of them is
/// checked and only there, each once and in order.
pub proof fn risky_games_are_named_once(rows: Seq<ReviewRow>, names: Seq<&'static str>, i: int, j: int)
    requires
        names_ascend(names),
        forall|name: Seq<char>| #[trigger] holds_name(names, name) == is_checked_risk(rows, name),
    ensures
        0 <= i < rows.len() && rows[i].checked ==> (rows[i].known_risk matches Some(risk) ==> exists|
            k: int,
        |
            0 <= k < names.len() && (#[trigger] names[k])@ == risk@),
        0 <= j < names.len() ==> exists|k: int|
            0 <= k < rows.len() && (#[trigger] rows[k]).checked && rows[k].known_risk is Some
                && rows[k].known_risk->0@ == names[j]@,
        0 <= i < j < names.len() ==> names[i]@ != names[j]@ && precedes(
            code_points(names[i]@),
            code_points(names[j]@),
        ),
{
    if 0 <= i < rows.len() && rows[i].checked {
        if let Some(risk) = rows[i].known_risk {
            assert(is_checked_risk(rows, risk@));
            assert(holds_name(names, risk@));
        }
    }
    if 0 <= j < names.len() {
        assert(holds_name(names, names[j]@));
        assert(is_checked_risk(rows, names[j]@));
        let k = choose|k: int|
            0 <= k < rows.len() && (#[trigger] rows[k]).checked && (rows[k].known_risk matches Some(
                risk,
            ) && risk@ == names[j]@);
        assert(rows[k].checked && rows[k].known_risk is Some && rows[k].known_risk->0@
            == names[j]@);
    }
    if 0 <= i < j < names.len() {
        assert(precedes(code_points(names[i]@), code_points(names[j]@)));
        if names[i]@ == names[j]@ {
            crate::order::precedes_is_irreflexive(code_points(names[i]@));
        }
    }
}

} // verus!
