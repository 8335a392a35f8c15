//! What holds of the session as a whole: what each event leaves alone, which
//! games a run covers, and what is kept of it.

use crate::backups::BackupLoadReport;
use crate::catalog::{
    listed_releases_are_found, release_position, release_with_id, the_first_release_counts,
};
use crate::controls::{
    are_selected, are_shown, event_taken, is_indicator_activity, is_latest_ready, keys_pressed,
    page_for_search, Event, Keys, Surroundings,
};
use crate::discovery::DiscoveryOutcome;
use crate::imports::{
    imports_leave_others_alone, only_one_content_is_removed, with_import, without_import,
};
use crate::latest::{recounted, recounting_changes_only_counts, scans_carry_over_nothing_else};
use crate::library::{is_among, is_meant, is_row_of, selecting, shown_rows, staged_ids, GameRow};
use crate::library_laws::{every_wanted_game_is_shown, is_wanted, sorting_keeps_every_row};
use crate::lists::{first_is_wanted, first_where, picks, picks_grow, picks_nothing};
use crate::model::{
    ActivityRecord, CachedRelease, DllInstallationId, GameId, GameInstall, ReleaseId,
    ReleaseState,
};
use crate::profile::{holds_installation, id_set, ids_of, listed_entries_stay};
use crate::review::{
    are_choices_of, choice_for, game_with_id, has_choices, is_chosen_game, is_game, GameChoices,
    ReviewRow,
};
use crate::session::{
    are_recounted, are_rows_of, backup_warning_of, carried_rows, is_busy, known_ids,
    operation_closed, operation_ended, operation_failed, operation_outcome, recent,
    release_advanced, release_prepared, release_removed, report_taken, review_applied,
    run_advanced, run_begun, run_ended, scan_ended, sends, sent_for, undo_begun, undo_targets,
    Page, Session,
};
use crate::text::lowercase;
use crate::toast::BatchKind;
use crate::tools::ToolChangeResult;
use crate::worker::{Command, UpgradeReport, WorkerError};
use vstd::prelude::*;

verus! {

/// Of the games that are asked for, exactly those are undone whose last change
/// can be undone and that are not being changed, in their order.
pub proof fn every_game_that_can_be_undone_is(
    games: Seq<GameId>,
    undoable: Set<Seq<char>>,
    applying: Set<Seq<char>>,
) -> (undone: Seq<int>)
    ensures
        picks(
            undone,
            games.len() as int,
            |i: int| undoable.contains(games[i]@) && !applying.contains(games[i]@),
        ),
        undo_targets(games, undoable, applying).len() == undone.len(),
        forall|k: int|
            #![trigger undo_targets(games, undoable, applying)[k]]
            0 <= k < undone.len() ==> undo_targets(games, undoable, applying)[k] == games[undone[k]],
    decreases games.len(),
{
    let here = |i: int| undoable.contains(games[i]@) && !applying.contains(games[i]@);
    if games.len() == 0 {
        picks_nothing(here);
        Seq::empty()
    } else {
        let shorter = games.drop_last();
        let before = every_game_that_can_be_undone_is(shorter, undoable, applying);
        picks_grow(
            before,
            shorter.len() as int,
            |i: int| undoable.contains(shorter[i]@) && !applying.contains(shorter[i]@),
            here,
        )
    }
}

/// The worker is told to undo exactly those games, one after the other, and
/// each of them counts as being changed until it reports.
pub proof fn undo_commands_cover_the_games(
    before: Session,
    games: Seq<GameId>,
    now: u64,
    commands: Seq<Command>,
    after: Session,
) -> (undone: Seq<int>)
    requires
        undo_begun(before, games, now, commands, after),
    ensures
        picks(
            undone,
            games.len() as int,
            |i: int|
                before.undoable@.dom().contains(games[i]@) && !before.applying@.dom().contains(
                    games[i]@,
                ),
        ),
        commands.len() == undone.len(),
        forall|k: int|
            0 <= k < undone.len() ==> #[trigger] commands[k] == Command::UndoLast(games[undone[k]]),
        forall|k: int|
            0 <= k < undone.len() ==> after.applying@.dom().contains(
                games[#[trigger] undone[k]]@,
            ),
        undone.len() == 0 ==> after == before,
        undone.len() > 0 ==> (after.batch matches Some(batch) && batch.kind == BatchKind::Undo
            && batch.total == undone.len() && batch.done == 0),
        after.games == before.games,
        after.persisted == before.persisted,
{
    let undone = every_game_that_can_be_undone_is(
        games,
        before.undoable@.dom(),
        before.applying@.dom(),
    );
    let targets = undo_targets(games, before.undoable@.dom(), before.applying@.dom());
    assert forall|k: int| 0 <= k < undone.len() implies after.applying@.dom().contains(
        games[#[trigger] undone[k]]@,
    ) by {
        assert(targets[k] == games[undone[k]]);
        assert(crate::library::holds_game(targets, games[undone[k]]@));
    }
    undone
}

/// Applying a review tells the worker, once for each game with a checked row,
/// exactly what the checked rows of that game choose. While something is queued
/// or running nothing is told.
pub proof fn applied_reviews_send_what_is_checked(
    before: Session,
    rows: Seq<ReviewRow>,
    now: u64,
    commands: Seq<Command>,
    after: Session,
)
    requires
        review_applied(before, rows, now, commands, after),
    ensures
        is_busy(before) ==> commands.len() == 0 && after == before,
        forall|k: int|
            #![trigger commands[k]]
            0 <= k < commands.len() ==> (commands[k] matches Command::ApplyProfile(id, profile)
                && is_chosen_game(rows, id@) && (forall|dll: Seq<char>| #[trigger]
                profile.staged(dll) == choice_for(rows, id@, dll))),
        !is_busy(before) ==> forall|id: Seq<char>| #[trigger]
            is_chosen_game(rows, id) ==> exists|k: int|
                0 <= k < commands.len() && (#[trigger] commands[k] matches Command::ApplyProfile(
                    game,
                    profile,
                ) && game@ == id),
        after.games == before.games,
        after.persisted == before.persisted,
{
    if !is_busy(before) {
        let (choices, begun) = choose|choices: Seq<GameChoices>, begun: Session|
            {
                &&& #[trigger] are_choices_of(rows, choices)
                &&& #[trigger] run_begun(
                    before,
                    BatchKind::Update,
                    crate::session::chosen_games(choices),
                    now,
                    begun,
                )
                &&& after == (Session { applying: after.applying, ..begun })
                &&& crate::session::are_choices_entered(
                    before.applying@,
                    choices,
                    after.applying@,
                )
                &&& commands.len() == choices.len()
                &&& forall|i: int|
                    0 <= i < commands.len() ==> sends(#[trigger] commands[i], choices[i])
            };
        assert forall|k: int|
            #![trigger commands[k]]
            0 <= k < commands.len() implies (commands[k] matches Command::ApplyProfile(id, profile)
            && is_chosen_game(rows, id@) && (forall|dll: Seq<char>| #[trigger]
            profile.staged(dll) == choice_for(rows, id@, dll))) by {
            assert(sends(commands[k], choices[k]));
            if let Command::ApplyProfile(id, profile) = commands[k] {
                assert(choices[k].game_id@ == id@);
                assert(has_choices(choices, id@));
                assert(has_choices(choices, id@) == is_chosen_game(rows, id@));
                assert forall|dll: Seq<char>| #[trigger]
                    profile.staged(dll) == choice_for(rows, id@, dll) by {
                    assert(choices[k].profile.staged(dll) == choice_for(
                        rows,
                        choices[k].game_id@,
                        dll,
                    ));
                }
            }
        }
        assert forall|id: Seq<char>| #[trigger] is_chosen_game(rows, id) implies exists|k: int|
            0 <= k < commands.len() && (#[trigger] commands[k] matches Command::ApplyProfile(
                game,
                profile,
            ) && game@ == id) by {
            assert(has_choices(choices, id) == is_chosen_game(rows, id));
            let k = choose|k: int| 0 <= k < choices.len() && (#[trigger] choices[k]).game_id@ == id;
            assert(sends(commands[k], choices[k]));
        }
    }
}

/// A DLL is known exactly where a game in the library has it.
pub proof fn every_listed_dll_is_known(games: Seq<GameRow>, id: Seq<char>)
    ensures
        holds_installation(known_ids(games), id) <==> exists|game: int, dll: int|
            0 <= game < games.len() && 0 <= dll < games[game].details@.len() && (
            #[trigger] games[game].details@[dll]).id@ == id,
    decreases games.len(),
{
    let ids = known_ids(games);
    if games.len() > 0 {
        let shorter = games.drop_last();
        let last = games.len() - 1;
        every_listed_dll_is_known(shorter, id);
        let before = known_ids(shorter);
        let own = ids_of(games[last].details@);
        assert(ids == before + own);
        if holds_installation(ids, id) {
            let i = choose|i: int| 0 <= i < ids.len() && (#[trigger] ids[i])@ == id;
            if i < before.len() {
                assert(before[i]@ == id);
                let (game, dll) = choose|game: int, dll: int|
                    0 <= game < shorter.len() && 0 <= dll < shorter[game].details@.len() && (
                    #[trigger] shorter[game].details@[dll]).id@ == id;
                assert(games[game].details@[dll].id@ == id);
            } else {
                assert(games[last].details@[i - before.len()].id@ == id);
            }
        }
        if exists|game: int, dll: int|
            0 <= game < games.len() && 0 <= dll < games[game].details@.len() && (
            #[trigger] games[game].details@[dll]).id@ == id {
            let (game, dll) = choose|game: int, dll: int|
                0 <= game < games.len() && 0 <= dll < games[game].details@.len() && (
                #[trigger] games[game].details@[dll]).id@ == id;
            if game < last {
                assert(shorter[game].details@[dll].id@ == id);
                let i = choose|i: int| 0 <= i < before.len() && (#[trigger] before[i])@ == id;
                assert(ids[i]@ == id);
            } else {
                assert(ids[before.len() + dll]@ == id);
            }
        }
    }
}

/// A scan lists one row for each game that was found, in their order and with
/// what was found of it, keeps the selection and the last operation of games
/// that were there before, drops the choices for DLLs that are gone and no
/// others, and leaves everything else alone. A scan that fails changes no game
/// and no choice.
pub proof fn scans_renew_the_library(
    before: Session,
    result: Result<DiscoveryOutcome, WorkerError>,
    after: Session,
)
    requires
        scan_ended(before, result, after),
    ensures
        !after.scanning,
        after.releases == before.releases,
        after.backups == before.backups,
        after.imports == before.imports,
        result is Err ==> after.games == before.games && after.persisted == before.persisted
            && after.page == before.page,
        result matches Ok(outcome) ==> {
            &&& after.games@.len() == outcome.games@.len()
            &&& forall|i: int|
                #![trigger after.games@[i]]
                0 <= i < after.games@.len() ==> {
                    let row = after.games@[i];
                    let game = outcome.games@[i];
                    &&& row.id == game.id
                    &&& row.name == game.name
                    &&& row.store_kind == game.store
                    &&& row.root == game.root
                    &&& row.details == game.dlls
                    &&& row.dlls == game.dlls.len()
                    &&& row.inspection_errors == game.inspection_errors
                }
            &&& after.discovery_reports == outcome.reports
            &&& after.persisted.activity == before.persisted.activity
            &&& after.persisted.custom_roots == before.persisted.custom_roots
            &&& forall|dll: Seq<char>| #[trigger]
                after.persisted.target_profile.staged(dll) == if holds_installation(
                    known_ids(after.games@),
                    dll,
                ) {
                    before.persisted.target_profile.staged(dll)
                } else {
                    None
                }
            &&& after.page == before.page || after.page == Page::Library
            &&& before.page matches Page::Game(id) ==> (after.page == before.page <==> game_with_id(
                after.games@,
                id@,
            ) is Some)
        },
{
    if let Ok(outcome) = result {
        let latest = crate::session::latest_in(before);
        let fresh = choose|fresh: Seq<GameRow>|
            #[trigger] are_rows_of(fresh, outcome.games@) && are_recounted(
                carried_rows(before.games@, fresh),
                latest,
                after.games@,
            );
        assert forall|i: int| #![trigger after.games@[i]] 0 <= i < after.games@.len() implies {
            let row = after.games@[i];
            let game = outcome.games@[i];
            &&& row.id == game.id
            &&& row.name == game.name
            &&& row.store_kind == game.store
            &&& row.root == game.root
            &&& row.details == game.dlls
            &&& row.dlls == game.dlls.len()
            &&& row.inspection_errors == game.inspection_errors
        } by {
            assert(is_row_of(fresh[i], outcome.games@[i]));
            scans_carry_over_nothing_else(before.games@, fresh, i);
            recounting_changes_only_counts(carried_rows(before.games@, fresh)[i], latest);
        }
        let ids = id_set(known_ids(after.games@));
        listed_entries_stay(before.persisted.target_profile.targets@, ids);
        assert forall|dll: Seq<char>| #[trigger]
            after.persisted.target_profile.staged(dll) == if holds_installation(
                known_ids(after.games@),
                dll,
            ) {
                before.persisted.target_profile.staged(dll)
            } else {
                None
            } by {
            assert(ids.contains(dll) == holds_installation(known_ids(after.games@), dll));
        }
    }
}

/// What is kept of the activities are the newest, in their order, as many as
/// five hundred.
pub proof fn the_newest_activities_are_kept(activity: Seq<ActivityRecord>)
    ensures
        activity.len() <= 500 ==> recent(activity) == activity,
        activity.len() > 500 ==> recent(activity).len() == 500,
        forall|i: int|
            0 <= i < recent(activity).len() ==> #[trigger] recent(activity)[i] == activity[activity.len()
                - recent(activity).len() + i],
{
}

/// A release that was prepared is listed as it was prepared, in place of what
/// was known of it, and no other release changes. One that could not be changes
/// no release and no game.
pub proof fn prepared_releases_are_listed(
    before: Session,
    result: Result<CachedRelease, WorkerError>,
    now: u64,
    after: Session,
    other: Seq<char>,
)
    requires
        release_prepared(before, result, now, after),
    ensures
        after.inspecting_release is None,
        after.release_progress is None,
        after.persisted == before.persisted,
        result matches Ok(release) ==> {
            &&& release_with_id(after.releases@, release.metadata.id@) == Some(release)
            &&& other != release.metadata.id@ ==> release_with_id(after.releases@, other)
                == release_with_id(before.releases@, other)
            &&& !after.release_errors@.dom().contains(release.metadata.id@)
        },
        result is Err ==> after.releases == before.releases && after.games == before.games,
        result is Err && before.inspecting_release is Some ==> after.release_errors@.dom().contains(
            before.inspecting_release->0@,
        ),
{
    if let Ok(release) = result {
        listed_releases_are_found(before.releases@, release, other);
    }
}

/// A release whose content was removed is known by its metadata alone, and no
/// other release changes.
pub proof fn removed_releases_are_emptied(
    before: Session,
    id: ReleaseId,
    now: u64,
    after: Session,
    at: int,
)
    requires
        release_removed(before, Ok(id), now, after),
        0 <= at < before.releases@.len(),
    ensures
        after.releases@.len() == before.releases@.len(),
        before.releases@[at].metadata.id@ != id@ ==> after.releases@[at] == before.releases@[at],
        before.releases@[at].metadata.id@ == id@ && (forall|i: int|
            0 <= i < at ==> (#[trigger] before.releases@[i]).metadata.id@ != id@)
            ==> after.releases@[at].metadata == before.releases@[at].metadata
            && after.releases@[at].state == ReleaseState::MetadataOnly
            && after.releases@[at].dlls@.len() == 0,
        after.persisted == before.persisted,
{
    the_first_release_counts(before.releases@, id@);
    assert(after.releases@[at] == after.releases@[at]);
}

/// The end of an operation changes no row but that of its game in anything but
/// the counts of upgrades.
pub proof fn operations_touch_one_row(
    before: Session,
    id: GameId,
    game: Option<GameInstall>,
    result: Result<UpgradeReport, WorkerError>,
    time: Seq<char>,
    now: u64,
    now_unix: i64,
    after: Session,
    at: int,
)
    requires
        operation_ended(before, id, game, result, time, now, now_unix, after),
        0 <= at < before.games@.len(),
        before.games@[at].id@ != id@,
    ensures
        after.games@.len() == before.games@.len(),
        after.games@[at] == (GameRow {
            upgrades: after.games@[at].upgrades,
            dlss_upgrades: after.games@[at].dlss_upgrades,
            ..before.games@[at]
        }),
        after.releases == before.releases,
        after.imports == before.imports,
        after.persisted.custom_roots == before.persisted.custom_roots,
        after.backups_loading,
{
    let (closed, told) = choose|closed: Session, told: Session|
        #[trigger] operation_closed(before, id@, game, closed) && #[trigger] operation_outcome(
            closed,
            id,
            sent_for(before, id@),
            result,
            time,
            now_unix,
            told,
        ) && run_advanced(told, now, after);
    let wanted = is_game(id@);
    first_is_wanted(before.games@, wanted);
    let row = first_where(before.games@, wanted);
    if row < before.games@.len() {
        assert(wanted(before.games@[row]));
    }
    assert(row != at);
    assert(closed.games@.len() == before.games@.len());
    assert(closed.games@[at] == before.games@[at]);
    first_is_wanted(closed.games@, wanted);
    let next = first_where(closed.games@, wanted);
    if next < closed.games@.len() {
        assert(wanted(closed.games@[next]));
    }
    assert(next != at);
    match result {
        Ok(report) => {
            assert(report_taken(closed, id, sent_for(before, id@), report, time, now_unix, told));
        },
        Err(error) => {
            assert(operation_failed(closed, id@, error, told));
        },
    }
    assert(told.games@.len() == closed.games@.len());
    assert(told.games@[at] == closed.games@[at]);
    let latest = crate::session::latest_in(told);
    assert(after.games@[at] == recounted(told.games@[at], latest));
    recounting_changes_only_counts(told.games@[at], latest);
}

/// A run counts what its games report: the DLLs that were changed and those
/// that failed add up, and so do the games.
pub proof fn runs_add_up(
    before: Session,
    id: GameId,
    sent: Option<Seq<DllInstallationId>>,
    result: Result<UpgradeReport, WorkerError>,
    time: Seq<char>,
    now_unix: i64,
    after: Session,
)
    requires
        operation_outcome(before, id, sent, result, time, now_unix, after),
        crate::session::has_room(before.batch, result),
        before.batch is Some,
    ensures
        after.batch is Some,
        ({
            let then = before.batch->0;
            let now = after.batch->0;
            &&& now.total == then.total
            &&& now.done == then.done
            &&& now.kind == then.kind
            &&& result matches Ok(report) ==> {
                &&& now.changed == then.changed + report.changed
                &&& now.failed == then.failed + report.failed
                &&& now.games_changed == then.games_changed + if report.changed > 0 {
                    1int
                } else {
                    0int
                }
                &&& now.failed_games == then.failed_games
                &&& report.can_undo ==> now.undoable@ == then.undoable@.push(id)
                &&& !report.can_undo ==> now.undoable@ == then.undoable@
            }
            &&& result is Err ==> {
                &&& now.changed == then.changed
                &&& now.failed == then.failed
                &&& now.games_changed == then.games_changed
                &&& now.failed_games == then.failed_games + 1
                &&& now.undoable@ == then.undoable@
            }
        }),
{
}

/// Events that only tell of something touch neither the games nor what can be
/// done to them, and each renews what it tells of: the imports, the backups,
/// the catalog or a warning.
pub proof fn news_renew_what_they_tell_of(
    before: Session,
    event: Event,
    around: Surroundings,
    after: Session,
)
    requires
        event_taken(before, event, around, after),
    ensures
        event is Warning || event is BackupsStarted || event is BackupsFinished
            || event is CatalogStarted || event is ImportsLoaded || event is ImportFinished
            || event is ImportRemoved || event is ReleaseProgress ==> after.games == before.games
            && after.undoable == before.undoable && after.applying == before.applying
            && after.persisted == before.persisted && after.upgrading == before.upgrading
            && after.batch == before.batch,
        event matches Event::Warning(warning) ==> after.last_error == Some(warning),
        event matches Event::BackupsStarted ==> after.backups_loading && after.backups
            == before.backups,
        event matches Event::BackupsFinished(result) ==> !after.backups_loading && match result {
            Ok(report) => after.backups == report.usable,
            Err(_) => after.backups.len() == 0 && after.backup_warning is Some,
        },
        event matches Event::CatalogStarted ==> after.catalog_loading && after.catalog_error is None
            && after.releases == before.releases,
        event matches Event::CatalogFinished(result) ==> !after.catalog_loading && match result {
            Ok(snapshot) => after.releases == snapshot.releases && after.catalog_release
                == snapshot.latest && after.catalog_error is None,
            Err(_) => after.releases == before.releases && after.catalog_release
                == before.catalog_release && after.games == before.games && after.catalog_error
                is Some && after.last_error is Some,
        },
        event matches Event::ImportsLoaded(records) ==> after.imports.records == records,
        event matches Event::ImportRemoved(Err(_)) ==> after.imports == before.imports
            && after.last_error is Some,
        event matches Event::ImportFinished(Err(_)) ==> after.imports == before.imports
            && after.last_error is Some,
        event matches Event::ScanFinished(Err(_)) ==> !after.scanning && after.games == before.games
            && after.persisted == before.persisted && after.last_error is Some,
{
}

/// A DLL that was imported is listed, and one that was removed no longer is.
/// The other imports stay.
pub proof fn imports_are_kept_up_to_date(
    before: Session,
    event: Event,
    around: Surroundings,
    after: Session,
    other: int,
)
    requires
        event_taken(before, event, around, after),
        0 <= other < before.imports.records.len(),
    ensures
        event matches Event::ImportFinished(Ok(record)) ==> after.imports.records@.contains(record)
            && (before.imports.records@[other].sha256 != record.sha256
            ==> after.imports.records@.contains(before.imports.records@[other])),
        event matches Event::ImportRemoved(Ok(sha256)) ==> (forall|i: int|
            0 <= i < after.imports.records.len() ==> (#[trigger] after.imports.records@[i]).sha256
                != sha256) && (before.imports.records@[other].sha256 != sha256
            ==> after.imports.records@.contains(before.imports.records@[other])),
{
    let records = before.imports.records@;
    if let Event::ImportFinished(Ok(record)) = event {
        imports_leave_others_alone(records, record);
        if records[other].sha256 != record.sha256 {
            assert(with_import(records, record)[other] == records[other]);
        }
    }
    if let Event::ImportRemoved(Ok(sha256)) = event {
        let kept = only_one_content_is_removed(records, sha256);
        let wanted = |i: int| records[i].sha256 != sha256;
        assert forall|k: int| 0 <= k < after.imports.records.len() implies (
        #[trigger] after.imports.records@[k]).sha256 != sha256 by {
            assert(without_import(records, sha256)[k] == records[kept[k]]);
            assert(wanted(kept[k]));
        }
        if records[other].sha256 != sha256 {
            assert(wanted(other));
            assert(kept.contains(other));
            let k = choose|k: int| 0 <= k < kept.len() && kept[k] == other;
            assert(without_import(records, sha256)[k] == records[other]);
        }
    }
}

/// The start of a change takes the game's undo away, and no other's. The start
/// of a scan takes them all away, with the last change as a whole.
pub proof fn starts_take_undo_away(
    before: Session,
    event: Event,
    around: Surroundings,
    after: Session,
    other: Seq<char>,
)
    requires
        event_taken(before, event, around, after),
    ensures
        event matches Event::UpgradeStarted(id) ==> after.upgrading == Some(id)
            && !after.undoable@.contains_key(id@) && (other != id@ ==> (
        after.undoable@.contains_key(other) <==> before.undoable@.contains_key(other)))
            && after.games == before.games && after.applying == before.applying,
        event matches Event::ScanStarted ==> after.scanning && after.last_error is None
            && !after.undoable@.contains_key(other) && after.last_change.len() == 0 && after.games
            == before.games,
{
}

/// What is told of the progress of a release shows on the first release with
/// its identifier, and on no other.
pub proof fn progress_shows_on_one_release(
    before: Session,
    id: ReleaseId,
    state: ReleaseState,
    received: u64,
    total: Option<u64>,
    now: u64,
    after: Session,
    at: int,
)
    requires
        release_advanced(before, id, state, received, total, now, after),
        0 <= at < before.releases.len(),
    ensures
        after.releases.len() == before.releases.len(),
        after.releases@[at].metadata == before.releases@[at].metadata,
        after.releases@[at].dlls == before.releases@[at].dlls,
        before.releases@[at].metadata.id@ != id@ ==> after.releases@[at] == before.releases@[at],
        before.releases@[at].metadata.id@ == id@ && (forall|i: int|
            0 <= i < at ==> (#[trigger] before.releases@[i]).metadata.id@ != id@)
            ==> after.releases@[at].state == state,
        after.release_progress matches Some(amount) && amount.id == id && amount.received
            == received && amount.total == total,
{
    the_first_release_counts(before.releases@, id@);
    let found = release_position(before.releases@, id@);
    if before.releases@[at].metadata.id@ == id@ && found < at {
        assert(before.releases@[found].metadata.id@ == id@);
    }
    if found > at {
        assert(before.releases@[at].metadata.id@ != id@);
    }
}

/// A change of the indicator shows at once. Its restore point joins the others;
/// a restore takes the last one away. What was done is recorded, and the user's
/// confirmation counts no longer. A failure changes nothing but what is said.
pub proof fn indicator_changes_are_recorded(
    before: Session,
    result: Result<ToolChangeResult, WorkerError>,
    around: Surroundings,
    after: Session,
)
    requires
        event_taken(before, Event::IndicatorFinished(result), around, after),
    ensures
        after.games == before.games,
        after.persisted.target_profile == before.persisted.target_profile,
        result is Err ==> after.tool_state == before.tool_state && after.persisted
            == before.persisted && after.tool_error is Some && after.observed_hash
            == before.observed_hash,
        result matches Ok(change) ==> {
            let points = before.persisted.tool_restore_points@;
            &&& after.tool_state == change.state
            &&& after.tool_error is None
            &&& !after.stale_confirmed
            &&& around.indicator_hash is Some ==> after.observed_hash == around.indicator_hash
            &&& change.restore_point matches Some(point) ==> after.persisted.tool_restore_points@
                == points + seq![point]
            &&& change.restore_point is None && points.len() > 0
                ==> after.persisted.tool_restore_points@ == points.take(points.len() - 1)
            &&& after.persisted.activity.len() > 0
            &&& after.persisted.activity@.last().timestamp_unix == around.now_unix
            &&& after.persisted.activity@.last().kind@ == if change.restore_point is Some {
                "tool_change"@
            } else {
                "tool_restore"@
            }
        },
{
    if let Ok(change) = result {
        let points = before.persisted.tool_restore_points@;
        if let Some(point) = change.restore_point {
            assert(points.push(point) =~= points + seq![point]);
        } else if points.len() > 0 {
            assert(points.drop_last() =~= points.take(points.len() - 1));
        }
        let record = choose|record: ActivityRecord|
            after.persisted.activity@ == recent(before.persisted.activity@.push(record))
                && #[trigger] is_indicator_activity(
                record,
                change.restore_point is Some,
                change.state,
                around.now_unix,
            );
        let all = before.persisted.activity@.push(record);
        the_newest_activities_are_kept(all);
        assert(recent(all).last() == all.last());
    }
}

/// A run begins with nothing done, for as many games as were asked for, and
/// ends when every one of them has reported: then what can be undone of it is
/// offered together.
pub proof fn runs_begin_and_end(
    before: Session,
    kind: BatchKind,
    games: Seq<GameId>,
    now: u64,
    begun: Session,
    running: Session,
    ended: Session,
)
    requires
        run_begun(before, kind, games, now, begun),
        run_ended(running, now, ended),
    ensures
        begun.batch matches Some(batch) && batch.kind == kind && batch.total == games.len()
            && batch.done == 0 && batch.changed == 0 && batch.failed == 0 && batch.failed_games == 0
            && batch.games_changed == 0 && batch.undoable.len() == 0,
        begun.last_change.len() == 0,
        begun.games == before.games,
        ended.games == running.games,
        running.batch matches Some(batch) ==> if batch.done < batch.total {
            ended == running
        } else {
            ended.batch is None && ended.last_change == batch.undoable
        },
{
}

/// While a dialog is open or the disclaimer is unread, no key does anything.
/// Otherwise Escape goes to the library and, there, unselects every game;
/// selecting all selects every game that is shown and has DLLs, and touches no
/// other. No key changes anything but the page and the marks.
pub proof fn keys_select_what_is_shown(
    before: Session,
    keys: Keys,
    dialog_open: bool,
    after: Session,
    i: int,
)
    requires
        keys_pressed(before, keys, dialog_open, after),
        0 <= i < before.games.len(),
    ensures
        dialog_open || before.review is Some || !before.persisted.disclaimer_acknowledged ==> after
            == before,
        after.persisted == before.persisted,
        after.applying == before.applying,
        after.games.len() == before.games.len(),
        after.games@[i] == (GameRow { selected: after.games@[i].selected, ..before.games@[i] }),
        !dialog_open && before.review is None && before.persisted.disclaimer_acknowledged ==> {
            &&& keys.escape || keys.focus_search ==> after.page == Page::Library
            &&& !keys.escape && !keys.focus_search ==> after.page == before.page
            &&& keys.escape && (before.page == Page::Library || keys.focus_search)
                ==> !after.games@[i].selected
            &&& !keys.escape && keys.select_all && (before.page == Page::Library
                || keys.focus_search) && after.games@[i].selected && !before.games@[i].selected
                ==> before.games@[i].dlls > 0
            &&& !keys.escape && !keys.select_all ==> after.games == before.games
        },
{
}

/// The user is warned of backups exactly where some were rejected, or accepted
/// without a check of revocation.
pub proof fn doubtful_backups_are_warned_of(report: BackupLoadReport)
    ensures
        backup_warning_of(report) is None <==> report.rejected.len() == 0
            && report.offline_revocation_fallbacks == 0,
{
}

/// Selecting all selects exactly the games that the library shows and that have
/// DLLs; the mark of every game that is not shown stays.
pub proof fn selecting_all_selects_what_is_shown(
    before: Session,
    keys: Keys,
    after: Session,
    i: int,
)
    requires
        keys_pressed(before, keys, false, after),
        before.review is None,
        before.persisted.disclaimer_acknowledged,
        before.page == Page::Library || keys.focus_search,
        keys.select_all,
        !keys.escape,
        0 <= i < before.games.len(),
    ensures
        after.games.len() == before.games.len(),
        ({
            let game = before.games@[i];
            let shown = is_wanted(
                game,
                lowercase(before.filter.search@),
                before.filter.store,
                before.filter.tab,
                staged_ids(before.games@, before.persisted.target_profile),
            );
            &&& shown ==> (after.games@[i].selected <==> game.dlls > 0)
            &&& !shown ==> after.games@[i] == game
        }),
{
    let games = before.games@;
    let filter = before.filter;
    let search = lowercase(filter.search@);
    let staged = staged_ids(games, before.persisted.target_profile);
    let page = page_for_search(before.page, keys);
    let rows = choose|rows: Seq<usize>|
        #[trigger] are_shown(Session { page, ..before }, rows) && are_selected(
            games,
            true,
            Some(rows),
            after.games@,
        );
    assert(games.len() == before.games.len());
    let shown = every_wanted_game_is_shown(games, search, filter.store, filter.tab, staged);
    let listed = shown_rows(games, search, filter.store, filter.tab, staged);
    let order = sorting_keeps_every_row(
        listed,
        games,
        filter.sort,
        is_latest_ready(Session { page, ..before }),
        rows,
    );
    let wanted = |at: int| is_wanted(games[at], search, filter.store, filter.tab, staged);
    if wanted(i) {
        assert(shown.contains(i));
        let k = choose|k: int| 0 <= k < shown.len() && shown[k] == i;
        assert(rows.contains(listed[k]));
        let at = choose|at: int| 0 <= at < rows.len() && rows[at] == listed[k];
        assert(rows[at] == i);
        assert(is_among(rows, i));
    } else if is_among(rows, i) {
        let at = choose|at: int| 0 <= at < rows.len() && #[trigger] rows[at] == i;
        assert(rows[at] == listed[order[at] as int]);
        assert(wanted(shown[order[at] as int]));
    }
    assert(after.games@[i] == if is_meant(Some(rows), i) {
        selecting(games[i], true)
    } else {
        games[i]
    });
}

} // verus!
