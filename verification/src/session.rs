//! The state of the program, and how it changes with what the worker reports
//! and what the user does.
//!
//! Moments are given by the caller: `now` in milliseconds of a clock that does
//! not go back, for notices, and `now_unix` in seconds since the Unix epoch,
//! for the records that are kept.

use crate::backups::{BackupLoadReport, RejectedBackup};
use crate::catalog::{put_release, with_release, CatalogSnapshot};
use crate::discovery::{DiscoveryOutcome, StoreDiscoveryReport};
use crate::imports::{with_import, without_import, ImportIndex, ImportedDllRecord};
use crate::keyed::Keyed;
use crate::labels::{friendly_dll_label, friendly_name, progress_label, progress_wording};
use crate::latest::{
    carried, carry_over_rows, latest_catalog, latest_dlls, recounted, refresh_upgrade_counts,
    tag_text,
};
use crate::library::{
    holds_game, is_row_of, GameFilter, GameRow, GameSort, LibraryFilter, SortKey, StoreFilter,
};
use crate::model::{
    version_text, ActivityRecord, BackupRecord, CachedRelease, DllInstallationId, GameId,
    GameInstall, ReleaseId, ReleaseState,
};
use crate::paths::FilePath;
use crate::profile::{id_set, ids_of, only_listed, TargetProfile};
use crate::review::{find_row, game_with_id, is_game, GameChoices, ReviewState};
use crate::text::{
    decimal, decimal_text, join_texts, join_three, join_two, joined_with, same_text, text_views,
};
use crate::toast::{
    first_lowered, is_notified, lower_first, notify, operation_summary, operation_wording,
    run_wording, verb, Batch, BatchKind, Toast, ToastKind,
};
use crate::tools::{SystemToolState, ToolRestorePoint};
use crate::traits::PlatformCapabilities;
use crate::worker::{worker_error_text, Command, UpgradeReport, WorkerError};
use vstd::prelude::*;

verus! {

/// The version of the format in which the state is kept.
pub const SCHEMA_VERSION: u32 = 1;

/// How many activities are kept.
pub const MAX_ACTIVITY: usize = 500;

/// What is kept from one run of the program to the next.
#[derive(Debug, PartialEq, Eq)]
pub struct PersistedState {
    pub schema_version: u32,
    pub custom_roots: Vec<FilePath>,
    pub show_advanced: bool,
    pub target_profile: TargetProfile,
    pub tool_restore_points: Vec<ToolRestorePoint>,
    pub activity: Vec<ActivityRecord>,
    /// Whether the user has seen what the program does to games.
    pub disclaimer_acknowledged: bool,
}

impl Default for PersistedState {
    /// The state before the first run: nothing is kept, and nothing was
    /// acknowledged.
    fn default() -> (state: PersistedState)
        ensures
            state.schema_version == SCHEMA_VERSION,
            state.custom_roots.len() == 0,
            !state.show_advanced,
            state.target_profile.well_formed(),
            state.target_profile.targets.len() == 0,
            state.tool_restore_points.len() == 0,
            state.activity.len() == 0,
            !state.disclaimer_acknowledged,
    {
        PersistedState {
            schema_version: SCHEMA_VERSION,
            custom_roots: Vec::new(),
            show_advanced: false,
            target_profile: TargetProfile::new(),
            tool_restore_points: Vec::new(),
            activity: Vec::new(),
            disclaimer_acknowledged: false,
        }
    }
}

/// The last [`MAX_ACTIVITY`] of a list of activities.
pub open spec fn recent(activity: Seq<ActivityRecord>) -> Seq<ActivityRecord> {
    if activity.len() > MAX_ACTIVITY {
        activity.skip(activity.len() - MAX_ACTIVITY)
    } else {
        activity
    }
}

/// Drops the oldest activities beyond the number that is kept.
pub fn trim_activity(activity: &mut Vec<ActivityRecord>)
    ensures
        final(activity)@ == recent(old(activity)@),
{
    let ghost before = activity@;
    if activity.len() <= MAX_ACTIVITY {
        return ;
    }
    let start: usize = activity.len() - MAX_ACTIVITY;
    let mut kept: Vec<ActivityRecord> = Vec::new();
    let mut at: usize = start;
    while at < activity.len()
        invariant
            start <= at <= activity.len(),
            activity@ == before,
            kept@ == before.subrange(start as int, at as int),
        decreases activity.len() - at,
    {
        kept.push(activity[at].clone());
        at += 1;
        proof {
            assert(kept@ =~= before.subrange(start as int, at as int));
        }
    }
    proof {
        assert(kept@ =~= before.skip(start as int));
    }
    *activity = kept;
}

/// Appends an activity and drops the oldest beyond the number that is kept.
pub fn append_activity(activity: &mut Vec<ActivityRecord>, record: ActivityRecord)
    ensures
        final(activity)@ == recent(old(activity)@.push(record)),
{
    activity.push(record);
    trim_activity(activity);
}

/// The list of activities never grows beyond its limit, and its last entry is
/// the one that was appended last.
pub proof fn activity_is_bounded(activity: Seq<ActivityRecord>, record: ActivityRecord)
    ensures
        recent(activity).len() <= MAX_ACTIVITY,
        recent(activity.push(record)).len() > 0,
        recent(activity.push(record)).last() == record,
        recent(recent(activity)) == recent(activity),
{
}

/// How a backup that was refused is described.
pub open spec fn rejection(rejected: RejectedBackup) -> Seq<char> {
    rejected.shown@ + ": "@ + rejected.reason@
}

/// How the first refused backups are described, three at most.
pub open spec fn rejections(rejected: Seq<RejectedBackup>) -> Seq<Seq<char>> {
    rejected.take(
        if rejected.len() < 3 {
            rejected.len() as int
        } else {
            3
        },
    ).map_values(|one: RejectedBackup| rejection(one))
}

/// What the user is told about backups that were refused.
pub open spec fn rejection_warning(rejected: Seq<RejectedBackup>) -> Seq<char> {
    decimal(rejected.len()) + " backup"@ + (if rejected.len() == 1 {
        ""@
    } else {
        "s"@
    }) + " hidden because verification failed ("@ + joined_with(rejections(rejected), "; "@) + ")"@
}

/// What the user is told about backups whose revocation could not be checked.
pub open spec fn fallback_warning(count: nat) -> Seq<char> {
    decimal(count) + " NVIDIA-signed backup"@ + (if count == 1 {
        " is"@
    } else {
        "s are"@
    })
        + " available with offline revocation validation; retry when online to complete the check"@
}

/// What the user is told about the backups, if there is something to tell.
pub open spec fn backup_warning_of(report: BackupLoadReport) -> Option<Seq<char>> {
    let rejected = report.rejected@;
    let fallbacks = report.offline_revocation_fallbacks as nat;
    if rejected.len() > 0 && fallbacks > 0 {
        Some(rejection_warning(rejected) + ". "@ + fallback_warning(fallbacks))
    } else if rejected.len() > 0 {
        Some(rejection_warning(rejected))
    } else if fallbacks > 0 {
        Some(fallback_warning(fallbacks))
    } else {
        None
    }
}

/// The characters of a text that may be missing.
pub open spec fn said(text: Option<String>) -> Option<Seq<char>> {
    match text {
        Some(text) => Some(text@),
        None => None,
    }
}

fn describe_rejections(rejected: &Vec<RejectedBackup>) -> (text: String)
    ensures
        text@ == joined_with(rejections(rejected@), "; "@),
{
    let many: usize = if rejected.len() < 3 {
        rejected.len()
    } else {
        3
    };
    let mut lines: Vec<String> = Vec::new();
    let mut at: usize = 0;
    while at < many
        invariant
            at <= many <= rejected.len(),
            many == (if rejected.len() < 3 {
                rejected.len() as int
            } else {
                3
            }),
            lines.len() == at,
            forall|i: int| 0 <= i < at ==> (#[trigger] lines@[i])@ == rejections(rejected@)[i],
        decreases many - at,
    {
        let line = join_three(&rejected[at].shown, ": ", &rejected[at].reason);
        proof {
            assert(rejections(rejected@)[at as int] == rejection(rejected@[at as int]));
        }
        lines.push(line);
        at += 1;
    }
    proof {
        assert(text_views(lines@) =~= rejections(rejected@));
    }
    join_texts(&lines, "; ")
}

/// What the user is told about the backups. Nothing is said of backups that
/// were all checked and found good.
pub fn backup_warning_message(report: &BackupLoadReport) -> (warning: Option<String>)
    ensures
        said(warning) == backup_warning_of(*report),
{
    let rejected = if report.rejected.len() > 0 {
        let ending = if report.rejected.len() == 1 {
            ""
        } else {
            "s"
        };
        let count = join_three(&decimal_text(report.rejected.len() as u64), " backup", ending);
        Some(
            join_two(
                &join_three(
                    &count,
                    " hidden because verification failed (",
                    &describe_rejections(&report.rejected),
                ),
                ")",
            ),
        )
    } else {
        None
    };
    let fallbacks = if report.offline_revocation_fallbacks > 0 {
        let ending = if report.offline_revocation_fallbacks == 1 {
            " is"
        } else {
            "s are"
        };
        let count = join_three(
            &decimal_text(report.offline_revocation_fallbacks as u64),
            " NVIDIA-signed backup",
            ending,
        );
        Some(
            join_two(
                &count,
                " available with offline revocation validation; retry when online to complete the check",
            ),
        )
    } else {
        None
    };
    match (rejected, fallbacks) {
        (Some(rejected), Some(fallbacks)) => Some(join_three(&rejected, ". ", &fallbacks)),
        (Some(rejected), None) => Some(rejected),
        (None, other) => other,
    }
}

/// Which page is open.
#[derive(Debug, PartialEq, Eq)]
pub enum Page {
    Library,
    Game(GameId),
}

/// How much of a release has arrived.
#[derive(Debug, PartialEq, Eq)]
pub struct ReleaseAmount {
    pub id: ReleaseId,
    pub received: u64,
    pub total: Option<u64>,
}

/// The state of the program.
#[derive(Debug, PartialEq, Eq)]
pub struct Session {
    pub persisted: PersistedState,
    pub games: Vec<GameRow>,
    pub discovery_reports: Vec<StoreDiscoveryReport>,
    pub filter: LibraryFilter,
    pub page: Page,
    pub tool_state: SystemToolState,
    pub staged_tool_state: SystemToolState,
    pub capabilities: PlatformCapabilities,
    pub scanning: bool,
    pub catalog_loading: bool,
    pub worker_connected: bool,
    /// A failure, until the user has read it.
    pub last_error: Option<String>,
    /// A problem with the indicator.
    pub tool_error: Option<String>,
    /// The tag of the latest release.
    pub catalog_release: Option<String>,
    pub catalog_error: Option<String>,
    pub releases: Vec<CachedRelease>,
    /// Why the last download of a release failed.
    pub release_errors: Keyed<String>,
    pub release_progress: Option<ReleaseAmount>,
    pub imports: ImportIndex,
    pub backups: Vec<BackupRecord>,
    pub backup_warning: Option<String>,
    pub backups_loading: bool,
    /// The release that is being downloaded or checked.
    pub inspecting_release: Option<ReleaseId>,
    /// The game that is being changed.
    pub upgrading: Option<GameId>,
    pub toast: Option<Toast>,
    /// The run that the user started, until every game of it has reported.
    pub batch: Option<Batch>,
    /// The games whose last change can be undone.
    pub undoable: Keyed<()>,
    /// The games of the last finished run that can be undone together.
    pub last_change: Vec<GameId>,
    /// The game from which a range of rows is selected.
    pub selection_anchor: Option<GameId>,
    pub review: Option<ReviewState>,
    /// The games with a queued or running operation, and the DLLs for which
    /// choices were sent.
    pub applying: Keyed<Vec<DllInstallationId>>,
    /// The digest of the indicator's registry value when it was last seen.
    pub observed_hash: Option<[u8; 32]>,
    /// Whether the user was told that the registry value changed.
    pub stale_confirmed: bool,
}

impl Session {
    /// Whether the tables of the session are in order.
    pub open spec fn well_formed(&self) -> bool {
        &&& self.persisted.target_profile.well_formed()
        &&& self.release_errors.well_formed()
        &&& self.undoable.well_formed()
        &&& self.applying.well_formed()
    }
}

/// Whether an update or an undo is queued or running.
pub open spec fn is_busy(session: Session) -> bool {
    session.upgrading is Some || session.applying@ != Map::<
        Seq<char>,
        Vec<DllInstallationId>,
    >::empty()
}

/// What a game is called.
pub open spec fn name_of(games: Seq<GameRow>, id: Seq<char>) -> Seq<char> {
    match game_with_id(games, id) {
        Some(game) => game.name@,
        None => "the game"@,
    }
}

/// What a game is called.
pub fn game_name(games: &[GameRow], id: &GameId) -> (name: String)
    ensures
        name@ == name_of(games@, id@),
{
    match find_row(games, id) {
        Some(at) => games[at].name.clone(),
        None => "the game".to_owned(),
    }
}

/// Whether `after` are the rows of `before` with their upgrades counted against
/// `latest`.
pub open spec fn are_recounted(
    before: Seq<GameRow>,
    latest: Seq<crate::model::CatalogDll>,
    after: Seq<GameRow>,
) -> bool {
    after.len() == before.len() && forall|i: int|
        0 <= i < after.len() ==> #[trigger] after[i] == recounted(before[i], latest)
}

/// The DLLs of the latest release that a session knows.
pub open spec fn latest_in(session: Session) -> Seq<crate::model::CatalogDll> {
    latest_dlls(session.releases@, tag_text(session.catalog_release))
}

impl Session {
    /// The state at the start: nothing is known yet, and everything is being
    /// looked for. Activities beyond the number that is kept are dropped.
    pub fn new(persisted: PersistedState, capabilities: PlatformCapabilities) -> (session: Session)
        requires
            persisted.target_profile.well_formed(),
        ensures
            session.well_formed(),
            session.persisted == (PersistedState {
                activity: session.persisted.activity,
                ..persisted
            }),
            session.persisted.activity@ == recent(persisted.activity@),
            session.games.len() == 0,
            session.discovery_reports.len() == 0,
            session.filter.search@ == ""@,
            session.filter.tab == GameFilter::WithDlls,
            session.filter.store == StoreFilter::All,
            session.filter.sort == (GameSort { key: SortKey::Status, ascending: true }),
            session.page == Page::Library,
            session.tool_state matches SystemToolState::Unavailable(reason) && reason@
                == "Windows registry controls are unavailable on this platform"@,
            session.staged_tool_state == SystemToolState::Off,
            session.capabilities == capabilities,
            session.scanning && session.catalog_loading && session.worker_connected
                && session.backups_loading,
            session.last_error is None && session.tool_error is None && session.catalog_error is None
                && session.backup_warning is None,
            session.catalog_release is None && session.releases.len() == 0,
            session.release_errors@ == Map::<Seq<char>, String>::empty(),
            session.release_progress is None && session.inspecting_release is None,
            session.imports.records.len() == 0 && session.backups.len() == 0,
            !is_busy(session),
            session.toast is None && session.batch is None && session.review is None,
            session.undoable@ == Map::<Seq<char>, ()>::empty(),
            session.last_change.len() == 0 && session.selection_anchor is None,
            session.observed_hash is None && !session.stale_confirmed,
    {
        let mut kept = persisted;
        trim_activity(&mut kept.activity);
        Session {
            persisted: kept,
            games: Vec::new(),
            discovery_reports: Vec::new(),
            filter: LibraryFilter {
                search: "".to_owned(),
                tab: GameFilter::WithDlls,
                store: StoreFilter::All,
                sort: GameSort { key: SortKey::Status, ascending: true },
            },
            page: Page::Library,
            tool_state: SystemToolState::Unavailable(
                "Windows registry controls are unavailable on this platform".to_owned(),
            ),
            staged_tool_state: SystemToolState::Off,
            capabilities,
            scanning: true,
            catalog_loading: true,
            worker_connected: true,
            last_error: None,
            tool_error: None,
            catalog_release: None,
            catalog_error: None,
            releases: Vec::new(),
            release_errors: Keyed::new(),
            release_progress: None,
            imports: ImportIndex { records: Vec::new() },
            backups: Vec::new(),
            backup_warning: None,
            backups_loading: true,
            inspecting_release: None,
            upgrading: None,
            toast: None,
            batch: None,
            undoable: Keyed::new(),
            last_change: Vec::new(),
            selection_anchor: None,
            review: None,
            applying: Keyed::new(),
            observed_hash: None,
            stale_confirmed: false,
        }
    }

    /// Whether an update or an undo is queued or running. The worker takes them
    /// one at a time, so between two games nothing runs for a moment.
    pub fn busy(&self) -> (busy: bool)
        ensures
            busy == is_busy(*self),
    {
        self.upgrading.is_some() || !self.applying.is_empty()
    }

    /// The DLLs of the latest release.
    fn latest(&self) -> (dlls: Vec<crate::model::CatalogDll>)
        ensures
            dlls@ == latest_in(*self),
    {
        latest_catalog(self.releases.as_slice(), &self.catalog_release)
    }

    /// Counts the upgrades of all games against the latest release.
    pub fn recount(&mut self)
        ensures
            *final(self) == (Session { games: final(self).games, ..*old(self) }),
            are_recounted(old(self).games@, latest_in(*old(self)), final(self).games@),
    {
        let latest = self.latest();
        refresh_upgrade_counts(&mut self.games, latest.as_slice());
    }
}

/// What a session becomes when a scan begins.
pub open spec fn scan_begun(before: Session, after: Session) -> bool {
    &&& after == (Session {
        scanning: true,
        last_error: None,
        undoable: after.undoable,
        last_change: after.last_change,
        ..before
    })
    &&& after.undoable.well_formed()
    &&& after.undoable@ == Map::<Seq<char>, ()>::empty()
    &&& after.last_change.len() == 0
}

/// What a session becomes when the backups have been loaded, or not.
pub open spec fn backups_loaded(
    before: Session,
    result: Result<BackupLoadReport, WorkerError>,
    after: Session,
) -> bool {
    &&& after == (Session {
        backups_loading: false,
        backups: after.backups,
        backup_warning: after.backup_warning,
        ..before
    })
    &&& match result {
        Ok(report) => {
            &&& after.backups == report.usable
            &&& said(after.backup_warning) == backup_warning_of(report)
        },
        Err(error) => {
            &&& after.backups.len() == 0
            &&& said(after.backup_warning) == Some(
                "Could not load backup history: "@ + worker_error_text(error),
            )
        },
    }
}

/// Whether `fresh` are the rows of games as a scan found them.
pub open spec fn are_rows_of(fresh: Seq<GameRow>, games: Seq<GameInstall>) -> bool {
    fresh.len() == games.len() && forall|i: int|
        0 <= i < fresh.len() ==> is_row_of(#[trigger] fresh[i], games[i])
}

/// The fresh rows, with what the user did to each game before.
pub open spec fn carried_rows(previous: Seq<GameRow>, fresh: Seq<GameRow>) -> Seq<GameRow> {
    Seq::new(fresh.len(), |i: int| carried(previous, fresh, i))
}

/// Whether `after` are the rows after a scan: those of the games that were
/// found, with what the user did to each game before, and with their upgrades
/// counted against `latest`.
pub open spec fn is_rescan(
    previous: Seq<GameRow>,
    found: Seq<GameInstall>,
    latest: Seq<crate::model::CatalogDll>,
    after: Seq<GameRow>,
) -> bool {
    exists|fresh: Seq<GameRow>|
        #[trigger] are_rows_of(fresh, found) && are_recounted(
            carried_rows(previous, fresh),
            latest,
            after,
        )
}

/// The identifiers of all DLLs of all games.
pub open spec fn known_ids(games: Seq<GameRow>) -> Seq<DllInstallationId>
    decreases games.len(),
{
    if games.len() == 0 {
        Seq::empty()
    } else {
        known_ids(games.drop_last()) + ids_of(games.last().details@)
    }
}

/// What a session becomes when a scan has ended. A page of a game that is gone
/// gives way to the library, and choices for DLLs that are gone are dropped.
pub open spec fn scan_ended(
    before: Session,
    result: Result<DiscoveryOutcome, WorkerError>,
    after: Session,
) -> bool {
    match result {
        Err(error) => {
            &&& after == (Session { scanning: false, last_error: after.last_error, ..before })
            &&& said(after.last_error) == Some(worker_error_text(error))
        },
        Ok(outcome) => {
            &&& after == (Session {
                scanning: false,
                discovery_reports: outcome.reports,
                games: after.games,
                page: after.page,
                persisted: PersistedState {
                    target_profile: after.persisted.target_profile,
                    ..before.persisted
                },
                ..before
            })
            &&& is_rescan(before.games@, outcome.games@, latest_in(before), after.games@)
            &&& after.page == match before.page {
                Page::Game(id) => if game_with_id(after.games@, id@) is Some {
                    before.page
                } else {
                    Page::Library
                },
                Page::Library => Page::Library,
            }
            &&& after.persisted.target_profile.well_formed()
            &&& after.persisted.target_profile.targets@ == only_listed(
                before.persisted.target_profile.targets@,
                id_set(known_ids(after.games@)),
            )
        },
    }
}

fn list_known_ids(games: &Vec<GameRow>) -> (ids: Vec<DllInstallationId>)
    ensures
        ids@ == known_ids(games@),
{
    let mut ids: Vec<DllInstallationId> = Vec::new();
    let mut at: usize = 0;
    proof {
        assert(ids@ =~= known_ids(games@.take(0)));
    }
    while at < games.len()
        invariant
            at <= games.len(),
            ids@ == known_ids(games@.take(at as int)),
        decreases games.len() - at,
    {
        proof {
            assert(games@.take(at + 1).drop_last() =~= games@.take(at as int));
        }
        let mut more = crate::profile::installation_ids(games[at].details.as_slice());
        ids.append(&mut more);
        at += 1;
    }
    proof {
        assert(games@.take(at as int) =~= games@);
    }
    ids
}

fn rows_of_games(games: Vec<GameInstall>) -> (rows: Vec<GameRow>)
    ensures
        are_rows_of(rows@, games@),
{
    let ghost given = games@;
    let mut rest = games;
    let mut rows: Vec<GameRow> = Vec::new();
    while rest.len() > 0
        invariant
            rest.len() + rows.len() == given.len(),
            rest@ == given.skip(rows.len() as int),
            forall|i: int| 0 <= i < rows.len() ==> is_row_of(#[trigger] rows@[i], given[i]),
        decreases rest.len(),
    {
        let game = rest.remove(0);
        proof {
            assert(game == given[rows.len() as int]);
        }
        rows.push(GameRow::from_install(game));
        proof {
            assert(rest@ =~= given.skip(rows.len() as int));
        }
    }
    rows
}

fn rescan(
    previous: &Vec<GameRow>,
    found: Vec<GameInstall>,
    latest: &[crate::model::CatalogDll],
) -> (rows: Vec<GameRow>)
    ensures
        is_rescan(previous@, found@, latest@, rows@),
{
    let fresh = rows_of_games(found);
    let ghost fresh_rows = fresh@;
    let mut rows = carry_over_rows(previous, fresh);
    proof {
        assert(rows@ =~= carried_rows(previous@, fresh_rows));
    }
    refresh_upgrade_counts(&mut rows, latest);
    proof {
        assert(are_rows_of(fresh_rows, found@));
    }
    rows
}

impl Session {
    /// A scan begins. What could be undone before cannot be any more.
    pub fn handle_scan_started(&mut self)
        ensures
            scan_begun(*old(self), *final(self)),
    {
        self.scanning = true;
        self.undoable = Keyed::new();
        self.last_change = Vec::new();
        self.last_error = None;
    }

    /// The backups have been loaded, or not.
    pub fn handle_backups_finished(&mut self, result: Result<BackupLoadReport, WorkerError>)
        ensures
            backups_loaded(*old(self), result, *final(self)),
    {
        self.backups_loading = false;
        match result {
            Ok(report) => {
                self.backup_warning = backup_warning_message(&report);
                self.backups = report.usable;
            },
            Err(error) => {
                self.backups = Vec::new();
                self.backup_warning = Some(
                    join_two("Could not load backup history: ", &error.to_text()),
                );
            },
        }
    }

    /// Takes over the games that a scan found.
    fn take_games(&mut self, outcome: DiscoveryOutcome)
        ensures
            *final(self) == (Session {
                games: final(self).games,
                scanning: false,
                discovery_reports: outcome.reports,
                ..*old(self)
            }),
            is_rescan(
                old(self).games@,
                outcome.games@,
                latest_in(*old(self)),
                final(self).games@,
            ),
    {
        let latest = self.latest();
        let games = rescan(&self.games, outcome.games, latest.as_slice());
        self.scanning = false;
        self.discovery_reports = outcome.reports;
        self.games = games;
    }

    /// Leaves the page of a game that is gone.
    fn leave_missing_game(&mut self)
        ensures
            *final(self) == (Session { page: final(self).page, ..*old(self) }),
            final(self).page == match old(self).page {
                Page::Game(id) => if game_with_id(old(self).games@, id@) is Some {
                    old(self).page
                } else {
                    Page::Library
                },
                Page::Library => Page::Library,
            },
    {
        let gone = match &self.page {
            Page::Game(id) => find_row(self.games.as_slice(), id).is_none(),
            Page::Library => false,
        };
        if gone {
            self.page = Page::Library;
        }
    }

    /// Drops the choices for DLLs that are gone.
    fn forget_missing_dlls(&mut self)
        requires
            old(self).well_formed(),
        ensures
            final(self).well_formed(),
            *final(self) == (Session {
                persisted: PersistedState {
                    target_profile: final(self).persisted.target_profile,
                    ..old(self).persisted
                },
                ..*old(self)
            }),
            final(self).persisted.target_profile.targets@ == only_listed(
                old(self).persisted.target_profile.targets@,
                id_set(known_ids(old(self).games@)),
            ),
    {
        let known = list_known_ids(&self.games);
        self.persisted.target_profile = self.persisted.target_profile.part(known.as_slice(), true);
    }

    /// A scan has ended.
    pub fn handle_scan_finished(&mut self, result: Result<DiscoveryOutcome, WorkerError>)
        requires
            old(self).well_formed(),
        ensures
            scan_ended(*old(self), result, *final(self)),
            final(self).well_formed(),
    {
        match result {
            Ok(outcome) => {
                self.take_games(outcome);
                self.leave_missing_game();
                self.forget_missing_dlls();
            },
            Err(error) => {
                self.scanning = false;
                self.last_error = Some(error.to_text());
            },
        }
    }
}

/// Whether a table is what filing a text under `key` makes of another.
pub open spec fn is_filed(
    before: Map<Seq<char>, String>,
    key: Seq<char>,
    text: Seq<char>,
    after: Map<Seq<char>, String>,
) -> bool {
    &&& after.dom() == before.dom().insert(key)
    &&& after[key]@ == text
    &&& forall|other: Seq<char>|
        other != key && before.dom().contains(other) ==> #[trigger] after[other] == before[other]
}

/// What a session becomes when the catalog has been refreshed, or not.
pub open spec fn catalog_refreshed(
    before: Session,
    result: Result<CatalogSnapshot, WorkerError>,
    after: Session,
) -> bool {
    match result {
        Ok(snapshot) => {
            &&& after == (Session {
                catalog_loading: false,
                catalog_release: snapshot.latest,
                releases: snapshot.releases,
                catalog_error: None,
                games: after.games,
                ..before
            })
            &&& are_recounted(before.games@, latest_in(after), after.games@)
        },
        Err(error) => {
            &&& after == (Session {
                catalog_loading: false,
                catalog_error: after.catalog_error,
                last_error: after.last_error,
                ..before
            })
            &&& said(after.catalog_error) == Some(worker_error_text(error))
            &&& said(after.last_error) == Some("Catalog: "@ + worker_error_text(error))
        },
    }
}

/// What a session becomes when a release has been prepared, or not.
pub open spec fn release_prepared(
    before: Session,
    result: Result<CachedRelease, WorkerError>,
    now: u64,
    after: Session,
) -> bool {
    match result {
        Ok(release) => {
            &&& after == (Session {
                inspecting_release: None,
                release_progress: None,
                release_errors: after.release_errors,
                releases: after.releases,
                toast: after.toast,
                games: after.games,
                ..before
            })
            &&& after.release_errors@ == before.release_errors@.remove(release.metadata.id@)
            &&& after.releases@ == with_release(before.releases@, release)
            &&& is_notified(
                before.toast,
                ToastKind::Success,
                release.metadata.tag@ + " is downloaded and verified: "@ + decimal(
                    release.dlls@.len(),
                ) + " DLLs"@,
                now,
                after.toast,
            )
            &&& are_recounted(before.games@, latest_in(after), after.games@)
        },
        Err(error) => {
            &&& after == (Session {
                inspecting_release: None,
                release_progress: None,
                release_errors: after.release_errors,
                toast: None,
                last_error: after.last_error,
                ..before
            })
            &&& match before.inspecting_release {
                Some(id) => is_filed(
                    before.release_errors@,
                    id@,
                    worker_error_text(error),
                    after.release_errors@,
                ),
                None => after.release_errors == before.release_errors,
            }
            &&& said(after.last_error) == Some("Release validation: "@ + worker_error_text(error))
        },
    }
}

/// A release of which nothing is kept but what the catalog says.
pub open spec fn is_bare(release: CachedRelease, before: CachedRelease) -> bool {
    &&& release.metadata == before.metadata
    &&& release.state == ReleaseState::MetadataOnly
    &&& release.dlls@.len() == 0
    &&& release.validation == before.validation
}

/// Whether `after` are the releases of `before` without the content of the one
/// with the identifier `id`.
pub open spec fn is_emptied(
    before: Seq<CachedRelease>,
    id: Seq<char>,
    after: Seq<CachedRelease>,
) -> bool {
    after.len() == before.len() && forall|i: int|
        0 <= i < after.len() ==> if i == crate::catalog::release_position(before, id) {
            is_bare(#[trigger] after[i], before[i])
        } else {
            after[i] == before[i]
        }
}

/// What a session becomes when the content of a release has been removed, or
/// not.
pub open spec fn release_removed(
    before: Session,
    result: Result<ReleaseId, WorkerError>,
    now: u64,
    after: Session,
) -> bool {
    match result {
        Ok(id) => {
            &&& after == (Session {
                release_errors: after.release_errors,
                releases: after.releases,
                toast: after.toast,
                games: after.games,
                ..before
            })
            &&& is_emptied(before.releases@, id@, after.releases@)
            &&& after.release_errors@ == before.release_errors@.remove(id@)
            &&& is_notified(
                before.toast,
                ToastKind::Success,
                "Removed the downloaded release"@,
                now,
                after.toast,
            )
            &&& are_recounted(before.games@, latest_in(after), after.games@)
        },
        Err(error) => {
            &&& after == (Session { last_error: after.last_error, ..before })
            &&& said(after.last_error) == Some(
                "Could not remove release: "@ + worker_error_text(error),
            )
        },
    }
}

/// What a session becomes when a DLL has been imported, or not.
pub open spec fn dll_imported(
    before: Session,
    result: Result<ImportedDllRecord, WorkerError>,
    now: u64,
    after: Session,
) -> bool {
    match result {
        Ok(record) => {
            &&& after == (Session { imports: after.imports, toast: after.toast, ..before })
            &&& after.imports.records@ == with_import(before.imports.records@, record)
            &&& is_notified(
                before.toast,
                ToastKind::Success,
                "Imported "@ + friendly_name(record.file_name) + " "@ + version_text(
                    record.version,
                ),
                now,
                after.toast,
            )
        },
        Err(error) => {
            &&& after == (Session { last_error: after.last_error, ..before })
            &&& said(after.last_error) == Some("DLL import failed: "@ + worker_error_text(error))
        },
    }
}

/// What a session becomes when an import has been removed, or not.
pub open spec fn import_removed(
    before: Session,
    result: Result<[u8; 32], WorkerError>,
    after: Session,
) -> bool {
    match result {
        Ok(hash) => {
            &&& after == (Session { imports: after.imports, ..before })
            &&& after.imports.records@ == without_import(before.imports.records@, hash)
        },
        Err(error) => {
            &&& after == (Session { last_error: after.last_error, ..before })
            &&& said(after.last_error) == Some(
                "Could not remove import: "@ + worker_error_text(error),
            )
        },
    }
}

/// What a session becomes when a release is on its way.
pub open spec fn release_advanced(
    before: Session,
    id: ReleaseId,
    state: ReleaseState,
    received: u64,
    total: Option<u64>,
    now: u64,
    after: Session,
) -> bool {
    &&& after == (Session {
        releases: after.releases,
        release_progress: Some(ReleaseAmount { id, received, total }),
        toast: after.toast,
        ..before
    })
    &&& after.releases.len() == before.releases.len()
    &&& forall|i: int|
        0 <= i < after.releases.len() ==> #[trigger] after.releases@[i] == if i
            == crate::catalog::release_position(before.releases@, id@) {
            CachedRelease { state, ..before.releases@[i] }
        } else {
            before.releases@[i]
        }
    &&& is_notified(
        before.toast,
        ToastKind::Progress,
        progress_wording(state, received, total),
        now,
        after.toast,
    )
}

impl Session {
    /// Gives a notice.
    pub fn tell(&mut self, kind: ToastKind, message: String, now: u64)
        ensures
            *final(self) == (Session { toast: final(self).toast, ..*old(self) }),
            is_notified(old(self).toast, kind, message@, now, final(self).toast),
    {
        notify(&mut self.toast, kind, message, now);
    }

    /// Files a failure, to be shown until the user has read it.
    fn fail(&mut self, what: &str, error: &WorkerError)
        ensures
            *final(self) == (Session { last_error: final(self).last_error, ..*old(self) }),
            said(final(self).last_error) == Some(what@ + worker_error_text(*error)),
    {
        self.last_error = Some(join_two(what, &error.to_text()));
    }

    /// The catalog has been refreshed, or not.
    pub fn handle_catalog_finished(&mut self, result: Result<CatalogSnapshot, WorkerError>)
        ensures
            catalog_refreshed(*old(self), result, *final(self)),
            final(self).well_formed() == old(self).well_formed(),
    {
        self.catalog_loading = false;
        match result {
            Ok(snapshot) => {
                self.catalog_release = snapshot.latest;
                self.releases = snapshot.releases;
                self.catalog_error = None;
                self.recount();
            },
            Err(error) => {
                self.catalog_error = Some(error.to_text());
                self.fail("Catalog: ", &error);
            },
        }
    }

    /// Lists a release and forgets why an earlier attempt failed.
    fn list_release(&mut self, release: CachedRelease)
        requires
            old(self).well_formed(),
        ensures
            final(self).well_formed(),
            *final(self) == (Session {
                release_errors: final(self).release_errors,
                releases: final(self).releases,
                ..*old(self)
            }),
            final(self).release_errors@ == old(self).release_errors@.remove(release.metadata.id@),
            final(self).releases@ == with_release(old(self).releases@, release),
    {
        self.release_errors.remove(&release.metadata.id.0);
        put_release(&mut self.releases, release);
    }

    /// A release has been prepared, or not.
    pub fn handle_release_finished(
        &mut self,
        result: Result<CachedRelease, WorkerError>,
        now: u64,
    )
        requires
            old(self).well_formed(),
        ensures
            release_prepared(*old(self), result, now, *final(self)),
            final(self).well_formed(),
    {
        match result {
            Ok(release) => {
                let count = decimal_text(release.dlls.len() as u64);
                let message = join_two(
                    &join_three(&release.metadata.tag, " is downloaded and verified: ", &count),
                    " DLLs",
                );
                self.inspecting_release = None;
                self.release_progress = None;
                self.list_release(release);
                self.tell(ToastKind::Success, message, now);
                self.recount();
            },
            Err(error) => {
                self.file_release_error(&error);
                self.release_progress = None;
                self.toast = None;
                self.fail("Release validation: ", &error);
            },
        }
    }

    /// Files why the release that was asked for could not be prepared.
    fn file_release_error(&mut self, error: &WorkerError)
        requires
            old(self).well_formed(),
        ensures
            final(self).well_formed(),
            *final(self) == (Session {
                inspecting_release: None,
                release_errors: final(self).release_errors,
                ..*old(self)
            }),
            match old(self).inspecting_release {
                Some(id) => is_filed(
                    old(self).release_errors@,
                    id@,
                    worker_error_text(*error),
                    final(self).release_errors@,
                ),
                None => final(self).release_errors == old(self).release_errors,
            },
    {
        let requested = match &self.inspecting_release {
            Some(id) => Some(id.0.clone()),
            None => None,
        };
        self.inspecting_release = None;
        if let Some(id) = requested {
            self.release_errors.insert(id, error.to_text());
        }
    }

    /// Keeps nothing of a release but what the catalog says.
    fn empty_release(&mut self, id: &ReleaseId)
        requires
            old(self).well_formed(),
        ensures
            final(self).well_formed(),
            *final(self) == (Session {
                release_errors: final(self).release_errors,
                releases: final(self).releases,
                ..*old(self)
            }),
            is_emptied(old(self).releases@, id@, final(self).releases@),
            final(self).release_errors@ == old(self).release_errors@.remove(id@),
    {
        let at = crate::catalog::find_release(&self.releases, id);
        if at < self.releases.len() {
            self.releases[at].state = ReleaseState::MetadataOnly;
            self.releases[at].dlls = Vec::new();
        }
        self.release_errors.remove(&id.0);
    }

    /// The content of a release has been removed, or not.
    pub fn handle_release_removed(&mut self, result: Result<ReleaseId, WorkerError>, now: u64)
        requires
            old(self).well_formed(),
        ensures
            release_removed(*old(self), result, now, *final(self)),
            final(self).well_formed(),
    {
        match result {
            Ok(id) => {
                self.empty_release(&id);
                self.tell(
                    ToastKind::Success,
                    "Removed the downloaded release".to_owned(),
                    now,
                );
                self.recount();
            },
            Err(error) => {
                self.fail("Could not remove release: ", &error);
            },
        }
    }

    /// A DLL has been imported, or not.
    pub fn handle_import_finished(
        &mut self,
        result: Result<ImportedDllRecord, WorkerError>,
        now: u64,
    )
        ensures
            dll_imported(*old(self), result, now, *final(self)),
            final(self).well_formed() == old(self).well_formed(),
    {
        match result {
            Ok(record) => {
                let label = friendly_dll_label(&record.file_name);
                let message = join_two(
                    &join_three("Imported ", &label, " "),
                    &record.version.to_text(),
                );
                self.imports.upsert(record);
                self.tell(ToastKind::Success, message, now);
            },
            Err(error) => {
                self.fail("DLL import failed: ", &error);
            },
        }
    }

    /// An import has been removed, or not.
    pub fn handle_import_removed(&mut self, result: Result<[u8; 32], WorkerError>)
        ensures
            import_removed(*old(self), result, *final(self)),
            final(self).well_formed() == old(self).well_formed(),
    {
        match result {
            Ok(hash) => {
                self.imports.forget(&hash);
            },
            Err(error) => {
                self.fail("Could not remove import: ", &error);
            },
        }
    }

    /// A release is on its way.
    pub fn handle_release_progress(
        &mut self,
        id: ReleaseId,
        state: ReleaseState,
        received: u64,
        total: Option<u64>,
        now: u64,
    )
        ensures
            release_advanced(*old(self), id, state, received, total, now, *final(self)),
            final(self).well_formed() == old(self).well_formed(),
    {
        let at = crate::catalog::find_release(&self.releases, &id);
        if at < self.releases.len() {
            self.releases[at].state = state;
        }
        self.release_progress = Some(ReleaseAmount { id, received, total });
        self.tell(ToastKind::Progress, progress_label(state, received, total), now);
    }
}

/// Whether a notice about `message` stands that offers to undo or not. The same
/// notice again keeps its time.
pub open spec fn is_offered(
    before: Option<Toast>,
    kind: ToastKind,
    message: Seq<char>,
    now: u64,
    undo: bool,
    after: Option<Toast>,
) -> bool {
    after matches Some(toast) && {
        &&& toast.kind == kind
        &&& toast.message@ == message
        &&& toast.offers_undo == undo
        &&& toast.shown == if before matches Some(current) && current.kind == kind
            && current.message@ == message {
            before->0.shown
        } else {
            now
        }
    }
}

/// What is said when a run over `games` begins.
pub open spec fn run_announcement(
    kind: BatchKind,
    games: Seq<GameId>,
    rows: Seq<GameRow>,
) -> Seq<char> {
    if games.len() == 1 {
        verb(kind) + " "@ + name_of(rows, games[0]@) + "…"@
    } else {
        verb(kind) + " "@ + decimal(games.len()) + " games…"@
    }
}

/// What a session becomes when a run over `games` begins.
pub open spec fn run_begun(
    before: Session,
    kind: BatchKind,
    games: Seq<GameId>,
    now: u64,
    after: Session,
) -> bool {
    &&& after == (Session {
        last_change: after.last_change,
        batch: after.batch,
        toast: after.toast,
        ..before
    })
    &&& after.last_change.len() == 0
    &&& after.batch matches Some(batch) && {
        &&& batch.kind == kind
        &&& batch.total == games.len()
        &&& batch.done == 0 && batch.changed == 0 && batch.failed == 0 && batch.games_changed == 0
            && batch.failed_games == 0
        &&& batch.undoable.len() == 0
        &&& said(batch.single_name) == if games.len() == 1 {
            Some(name_of(before.games@, games[0]@))
        } else {
            None
        }
    }
    &&& is_notified(
        before.toast,
        ToastKind::Progress,
        run_announcement(kind, games, before.games@),
        now,
        after.toast,
    )
}

/// What a session becomes when a run may have ended. A run ends when every game
/// of it has reported; then one notice sums it up and offers to undo what can
/// be undone. Without a run there is nothing to notify of.
pub open spec fn run_ended(before: Session, now: u64, after: Session) -> bool {
    match before.batch {
        None => after == (Session { toast: None, ..before }),
        Some(batch) => if batch.done < batch.total {
            after == before
        } else {
            &&& after == (Session {
                batch: None,
                toast: after.toast,
                last_change: batch.undoable,
                ..before
            })
            &&& is_offered(
                before.toast,
                if batch.failed == 0 && batch.failed_games == 0 {
                    ToastKind::Success
                } else {
                    ToastKind::Info
                },
                run_wording(batch),
                now,
                batch.undoable.len() > 0,
                after.toast,
            )
        },
    }
}

/// What is said when the operation on a game begins.
pub open spec fn operation_announcement(batch: Option<Batch>, name: Seq<char>) -> Seq<char> {
    match batch {
        Some(batch) => if batch.total > 1 {
            verb(batch.kind) + " "@ + name + " ("@ + decimal((batch.done + 1) as nat) + " of "@
                + decimal(batch.total as nat) + ")…"@
        } else {
            verb(batch.kind) + " "@ + name + "…"@
        },
        None => "Updating "@ + name + "…"@,
    }
}

/// What a session becomes when the operation on a game begins.
pub open spec fn operation_begun(before: Session, id: GameId, now: u64, after: Session) -> bool {
    &&& after == (Session {
        undoable: after.undoable,
        upgrading: Some(id),
        toast: after.toast,
        ..before
    })
    &&& after.undoable.well_formed()
    &&& after.undoable@ == before.undoable@.remove(id@)
    &&& is_notified(
        before.toast,
        ToastKind::Progress,
        operation_announcement(before.batch, name_of(before.games@, id@)),
        now,
        after.toast,
    )
}

/// Whether `after` are the rows of `before` with the row of a game made anew.
/// Its selection and what was last done to it are kept.
pub open spec fn is_row_renewed(
    before: Seq<GameRow>,
    id: Seq<char>,
    game: Option<GameInstall>,
    after: Seq<GameRow>,
) -> bool {
    let at = crate::lists::first_where(before, is_game(id));
    match game {
        Some(game) => if at < before.len() {
            &&& after.len() == before.len()
            &&& forall|i: int|
                0 <= i < after.len() && i != at ==> #[trigger] after[i] == before[i]
            &&& exists|row: GameRow|
                #[trigger] is_row_of(row, game) && after[at] == (GameRow {
                    selected: before[at].selected,
                    last_operation: before[at].last_operation,
                    ..row
                })
        } else {
            after == before
        },
        None => after == before,
    }
}

fn renew_row(games: &mut Vec<GameRow>, id: &GameId, game: Option<GameInstall>)
    ensures
        is_row_renewed(old(games)@, id@, game, final(games)@),
{
    if let Some(game) = game {
        if let Some(at) = find_row(games.as_slice(), id) {
            let selected = games[at].selected;
            let operation = match &games[at].last_operation {
                Some(text) => Some(text.clone()),
                None => None,
            };
            let mut row = GameRow::from_install(game);
            let ghost fresh = row;
            row.selected = selected;
            row.last_operation = operation;
            games.set(at, row);
            proof {
                assert(is_row_of(fresh, game));
            }
        }
    }
}

/// What a session becomes when the operation on a game is over: the game is not
/// being changed any more, and its row is made anew.
pub open spec fn operation_closed(
    before: Session,
    id: Seq<char>,
    game: Option<GameInstall>,
    after: Session,
) -> bool {
    &&& after == (Session {
        upgrading: None,
        applying: after.applying,
        games: after.games,
        ..before
    })
    &&& after.applying@ == before.applying@.remove(id)
    &&& is_row_renewed(before.games@, id, game, after.games@)
}

/// What is kept of an operation on a game, in words.
pub open spec fn activity_of(
    name: Seq<char>,
    report: UpgradeReport,
) -> Seq<char> {
    let undo = report.release@ == "Undo"@;
    let summary = operation_wording(undo, report.changed as nat, report.failed as nat);
    name + ": "@ + first_lowered(summary) + if undo {
        Seq::empty()
    } else {
        " from "@ + report.release@
    }
}

/// The counts of a run after a game has reported.
pub open spec fn is_batch_counted(
    before: Option<Batch>,
    id: GameId,
    report: UpgradeReport,
    after: Option<Batch>,
) -> bool {
    match before {
        Some(batch) => after matches Some(counted) && {
            &&& counted == (Batch {
                changed: (batch.changed + report.changed) as usize,
                failed: (batch.failed + report.failed) as usize,
                games_changed: if report.changed > 0 {
                    (batch.games_changed + 1) as usize
                } else {
                    batch.games_changed
                },
                undoable: counted.undoable,
                ..batch
            })
            &&& counted.undoable@ == if report.can_undo {
                batch.undoable@.push(id)
            } else {
                batch.undoable@
            }
        },
        None => after is None,
    }
}

/// Whether `after` are the rows of `before` with a note on what was last done
/// to a game.
pub open spec fn is_noted(
    before: Seq<GameRow>,
    id: Seq<char>,
    note: Seq<char>,
    after: Seq<GameRow>,
) -> bool {
    let at = crate::lists::first_where(before, is_game(id));
    if at < before.len() {
        &&& after.len() == before.len()
        &&& forall|i: int| 0 <= i < after.len() && i != at ==> #[trigger] after[i] == before[i]
        &&& after[at] == (GameRow { last_operation: after[at].last_operation, ..before[at] })
        &&& said(after[at].last_operation) == Some(note)
    } else {
        after == before
    }
}

/// Whether `after` is a profile without the choices that were sent.
pub open spec fn is_sent(
    before: TargetProfile,
    sent: Option<Seq<DllInstallationId>>,
    after: TargetProfile,
) -> bool {
    match sent {
        Some(ids) => after.well_formed() && after.targets@ == only_listed(
            before.targets@,
            id_set(ids).complement(),
        ),
        None => after == before,
    }
}

/// The choices that were sent for a game.
pub open spec fn sent_for(session: Session, id: Seq<char>) -> Option<Seq<DllInstallationId>> {
    if session.applying@.dom().contains(id) {
        Some(session.applying@[id]@)
    } else {
        None
    }
}

/// What a session becomes when the operation on a game has succeeded, at least
/// in part. Exactly the choices that were sent are dropped; those that the user
/// left unchecked stay staged.
pub open spec fn report_taken(
    before: Session,
    id: GameId,
    sent: Option<Seq<DllInstallationId>>,
    report: UpgradeReport,
    time: Seq<char>,
    now_unix: i64,
    after: Session,
) -> bool {
    let undo = report.release@ == "Undo"@;
    let name = name_of(before.games@, id@);
    let summary = operation_wording(undo, report.changed as nat, report.failed as nat);
    &&& after == (Session {
        last_error: after.last_error,
        games: after.games,
        undoable: after.undoable,
        batch: after.batch,
        persisted: PersistedState {
            activity: after.persisted.activity,
            target_profile: after.persisted.target_profile,
            ..before.persisted
        },
        ..before
    })
    &&& match report.warning {
        Some(warning) => said(after.last_error) == Some(name + ": "@ + warning@),
        None => after.last_error == before.last_error,
    }
    &&& is_noted(before.games@, id@, summary + " at "@ + time, after.games@)
    &&& after.undoable@ == if report.can_undo {
        before.undoable@.insert(id@, ())
    } else {
        before.undoable@
    }
    &&& is_batch_counted(before.batch, id, report, after.batch)
    &&& exists|record: ActivityRecord|
        after.persisted.activity@ == recent(before.persisted.activity@.push(record))
            && #[trigger] is_activity(record, undo, activity_of(name, report), now_unix)
    &&& is_sent(before.persisted.target_profile, sent, after.persisted.target_profile)
}

/// Whether a record is about an update or an undo, in these words.
pub open spec fn is_activity(
    record: ActivityRecord,
    undo: bool,
    detail: Seq<char>,
    now_unix: i64,
) -> bool {
    &&& record.timestamp_unix == now_unix
    &&& record.kind@ == if undo {
        "restore"@
    } else {
        "dll_swap"@
    }
    &&& record.detail@ == detail
}

/// What a session becomes when the operation on a game has failed as a whole.
pub open spec fn operation_failed(
    before: Session,
    id: Seq<char>,
    error: WorkerError,
    after: Session,
) -> bool {
    &&& after == (Session { last_error: after.last_error, batch: after.batch, ..before })
    &&& said(after.last_error) == Some(
        name_of(before.games@, id) + ": "@ + worker_error_text(error),
    )
    &&& after.batch == match before.batch {
        Some(batch) => Some(
            Batch { failed_games: (batch.failed_games + 1) as usize, ..batch },
        ),
        None => None,
    }
}

/// A run in which one more game has reported.
pub open spec fn one_more_done(batch: Option<Batch>) -> Option<Batch> {
    match batch {
        Some(batch) => Some(Batch { done: (batch.done + 1) as usize, ..batch }),
        None => None,
    }
}

/// What a session becomes when one more game of a run has reported: its
/// upgrades are counted, the run may have ended, and the backups are loaded
/// anew.
pub open spec fn run_advanced(before: Session, now: u64, after: Session) -> bool {
    &&& are_recounted(before.games@, latest_in(before), after.games@)
    &&& run_ended(
        Session {
            batch: one_more_done(before.batch),
            games: after.games,
            backups_loading: true,
            ..before
        },
        now,
        after,
    )
}

/// What is known when the operation on a game has ended.
pub open spec fn operation_outcome(
    before: Session,
    id: GameId,
    sent: Option<Seq<DllInstallationId>>,
    result: Result<UpgradeReport, WorkerError>,
    time: Seq<char>,
    now_unix: i64,
    after: Session,
) -> bool {
    match result {
        Ok(report) => report_taken(before, id, sent, report, time, now_unix, after),
        Err(error) => operation_failed(before, id@, error, after),
    }
}

/// What a session becomes when the operation on a game has ended.
pub open spec fn operation_ended(
    before: Session,
    id: GameId,
    game: Option<GameInstall>,
    result: Result<UpgradeReport, WorkerError>,
    time: Seq<char>,
    now: u64,
    now_unix: i64,
    after: Session,
) -> bool {
    exists|closed: Session, told: Session|
        #[trigger] operation_closed(before, id@, game, closed) && #[trigger] operation_outcome(
            closed,
            id,
            sent_for(before, id@),
            result,
            time,
            now_unix,
            told,
        ) && run_advanced(told, now, after)
}

/// Whether the counts of a run have room for a report.
pub open spec fn has_room(batch: Option<Batch>, result: Result<UpgradeReport, WorkerError>) -> bool {
    batch matches Some(batch) ==> {
        &&& batch.done < usize::MAX
        &&& batch.failed_games < usize::MAX
        &&& batch.games_changed < usize::MAX
        &&& result matches Ok(report) ==> batch.changed + report.changed <= usize::MAX
            && batch.failed + report.failed <= usize::MAX
    }
}

impl Session {
    /// Begins to count a run over `games`, so that its progress and its summary
    /// cover the whole run.
    pub fn start_batch(&mut self, kind: BatchKind, games: &Vec<GameId>, now: u64)
        ensures
            run_begun(*old(self), kind, games@, now, *final(self)),
    {
        let single = if games.len() == 1 {
            Some(game_name(self.games.as_slice(), &games[0]))
        } else {
            None
        };
        let announcement = match &single {
            Some(name) => join_two(&join_three(kind.verb_ing(), " ", name), "…"),
            None => join_two(
                &join_three(kind.verb_ing(), " ", &decimal_text(games.len() as u64)),
                " games…",
            ),
        };
        self.last_change = Vec::new();
        self.batch = Some(Batch::new(kind, games.len(), single));
        self.tell(ToastKind::Progress, announcement, now);
    }

    /// Ends the run if every game of it has reported.
    pub fn finish_batch_if_done(&mut self, now: u64)
        ensures
            run_ended(*old(self), now, *final(self)),
    {
        let going_on = match &self.batch {
            Some(batch) => batch.done < batch.total,
            None => {
                self.toast = None;
                return ;
            },
        };
        if going_on {
            return ;
        }
        let mut finished: Option<Batch> = None;
        std::mem::swap(&mut finished, &mut self.batch);
        if let Some(batch) = finished {
            let kind = if batch.failed == 0 && batch.failed_games == 0 {
                ToastKind::Success
            } else {
                ToastKind::Info
            };
            let message = batch.summary();
            let ghost words = message@;
            let undo = batch.undoable.len() > 0;
            self.tell(kind, message, now);
            let mut shown: Option<Toast> = None;
            std::mem::swap(&mut shown, &mut self.toast);
            if let Some(mut toast) = shown {
                toast.offers_undo = undo;
                self.toast = Some(toast);
            }
            self.last_change = batch.undoable;
        }
    }

    /// The operation on a game begins. What could be undone of it before cannot
    /// be any more.
    pub fn handle_upgrade_started(&mut self, id: GameId, now: u64)
        requires
            old(self).undoable.well_formed(),
            old(self).batch matches Some(batch) ==> batch.done < usize::MAX,
        ensures
            operation_begun(*old(self), id, now, *final(self)),
    {
        self.undoable.remove(&id.0);
        let name = game_name(self.games.as_slice(), &id);
        let message = match &self.batch {
            Some(batch) => {
                let start = join_three(batch.kind.verb_ing(), " ", &name);
                if batch.total > 1 {
                    let count = join_three(
                        &decimal_text((batch.done + 1) as u64),
                        " of ",
                        &decimal_text(batch.total as u64),
                    );
                    let text = join_two(&join_three(&start, " (", &count), ")…");
                    proof {
                        assert(text@ =~= operation_announcement(self.batch, name@));
                    }
                    text
                } else {
                    join_two(&start, "…")
                }
            },
            None => join_three("Updating ", &name, "…"),
        };
        self.upgrading = Some(id);
        self.tell(ToastKind::Progress, message, now);
    }

    /// The operation on a game is over. The result is what was sent for it.
    fn close_operation(&mut self, id: &GameId, game: Option<GameInstall>) -> (sent: Option<
        Vec<DllInstallationId>,
    >)
        requires
            old(self).well_formed(),
        ensures
            final(self).well_formed(),
            operation_closed(*old(self), id@, game, *final(self)),
            match sent {
                Some(ids) => sent_for(*old(self), id@) == Some(ids@),
                None => sent_for(*old(self), id@) is None,
            },
    {
        self.upgrading = None;
        let sent = self.applying.remove(&id.0);
        renew_row(&mut self.games, id, game);
        sent
    }
}

fn note_operation(games: &mut Vec<GameRow>, id: &GameId, note: String)
    ensures
        is_noted(old(games)@, id@, note@, final(games)@),
{
    if let Some(at) = find_row(games.as_slice(), id) {
        games[at].last_operation = Some(note);
    }
}

fn count_report(batch: Option<Batch>, id: &GameId, report: &UpgradeReport) -> (counted: Option<
    Batch,
>)
    requires
        batch matches Some(batch) ==> {
            &&& batch.games_changed < usize::MAX
            &&& batch.changed + report.changed <= usize::MAX
            &&& batch.failed + report.failed <= usize::MAX
        },
    ensures
        is_batch_counted(batch, *id, *report, counted),
{
    match batch {
        Some(batch) => {
            let mut counted = batch;
            counted.changed = counted.changed + report.changed;
            counted.failed = counted.failed + report.failed;
            if report.changed > 0 {
                counted.games_changed = counted.games_changed + 1;
            }
            if report.can_undo {
                counted.undoable.push(id.clone());
            }
            Some(counted)
        },
        None => None,
    }
}

impl PersistedState {
    /// Keeps an activity.
    pub fn record(&mut self, record: ActivityRecord)
        ensures
            *final(self) == (PersistedState { activity: final(self).activity, ..*old(self) }),
            final(self).activity@ == recent(old(self).activity@.push(record)),
    {
        append_activity(&mut self.activity, record);
    }

    /// Drops the choices that were sent.
    fn drop_sent(&mut self, sent: &Option<Vec<DllInstallationId>>)
        requires
            old(self).target_profile.well_formed(),
        ensures
            *final(self) == (PersistedState {
                target_profile: final(self).target_profile,
                ..*old(self)
            }),
            is_sent(
                old(self).target_profile,
                match *sent {
                    Some(ids) => Some(ids@),
                    None => None,
                },
                final(self).target_profile,
            ),
            final(self).target_profile.well_formed(),
    {
        if let Some(ids) = sent {
            self.target_profile = self.target_profile.part(ids.as_slice(), false);
        }
    }
}

/// The record of an operation on a game.
fn record_of(name: &str, report: &UpgradeReport, now_unix: i64) -> (record: ActivityRecord)
    ensures
        is_activity(
            record,
            report.release@ == "Undo"@,
            activity_of(name@, *report),
            now_unix,
        ),
{
    let undo = same_text(&report.release, "Undo");
    let summary = operation_summary(undo, report.changed, report.failed);
    let start = join_three(name, ": ", &lower_first(&summary));
    let detail = if undo {
        start
    } else {
        join_three(&start, " from ", &report.release)
    };
    proof {
        assert(detail@ =~= activity_of(name@, *report));
    }
    ActivityRecord {
        timestamp_unix: now_unix,
        kind: if undo {
            "restore".to_owned()
        } else {
            "dll_swap".to_owned()
        },
        detail,
    }
}

impl Session {
    /// Notes on the row of a game what was done to it, and tells of a warning.
    fn tell_of_report(&mut self, id: &GameId, report: &UpgradeReport, time: &str)
        ensures
            *final(self) == (Session {
                last_error: final(self).last_error,
                games: final(self).games,
                ..*old(self)
            }),
            match report.warning {
                Some(warning) => said(final(self).last_error) == Some(
                    name_of(old(self).games@, id@) + ": "@ + warning@,
                ),
                None => final(self).last_error == old(self).last_error,
            },
            is_noted(
                old(self).games@,
                id@,
                operation_wording(
                    report.release@ == "Undo"@,
                    report.changed as nat,
                    report.failed as nat,
                ) + " at "@ + time@,
                final(self).games@,
            ),
    {
        if let Some(warning) = &report.warning {
            let name = game_name(self.games.as_slice(), id);
            self.last_error = Some(join_three(&name, ": ", warning));
        }
        let undo = same_text(&report.release, "Undo");
        let summary = operation_summary(undo, report.changed, report.failed);
        note_operation(&mut self.games, id, join_three(&summary, " at ", time));
    }

    /// Counts a report, and remembers whether it can be undone.
    fn count(&mut self, id: &GameId, report: &UpgradeReport)
        requires
            old(self).undoable.well_formed(),
            old(self).batch matches Some(batch) ==> {
                &&& batch.games_changed < usize::MAX
                &&& batch.changed + report.changed <= usize::MAX
                &&& batch.failed + report.failed <= usize::MAX
            },
        ensures
            *final(self) == (Session {
                undoable: final(self).undoable,
                batch: final(self).batch,
                ..*old(self)
            }),
            final(self).undoable.well_formed(),
            final(self).undoable@ == if report.can_undo {
                old(self).undoable@.insert(id@, ())
            } else {
                old(self).undoable@
            },
            is_batch_counted(old(self).batch, *id, *report, final(self).batch),
    {
        if report.can_undo {
            self.undoable.insert(id.0.clone(), ());
        }
        let mut batch: Option<Batch> = None;
        std::mem::swap(&mut batch, &mut self.batch);
        self.batch = count_report(batch, id, report);
    }

    /// The operation on a game has succeeded, at least in part.
    fn take_report(
        &mut self,
        id: &GameId,
        sent: &Option<Vec<DllInstallationId>>,
        report: &UpgradeReport,
        time: &str,
        now_unix: i64,
    )
        requires
            old(self).well_formed(),
            has_room(old(self).batch, Ok(*report)),
        ensures
            final(self).well_formed(),
            report_taken(
                *old(self),
                *id,
                match *sent {
                    Some(ids) => Some(ids@),
                    None => None,
                },
                *report,
                time@,
                now_unix,
                *final(self),
            ),
            final(self).batch is Some == old(self).batch is Some,
            final(self).batch matches Some(batch) ==> batch.done == old(self).batch->0.done,
    {
        let name = game_name(self.games.as_slice(), id);
        let record = record_of(&name, report, now_unix);
        self.tell_of_report(id, report, time);
        self.count(id, report);
        self.persisted.record(record);
        self.persisted.drop_sent(sent);
        proof {
            assert(is_activity(
                record,
                report.release@ == "Undo"@,
                activity_of(name@, *report),
                now_unix,
            ));
        }
    }

    /// The operation on a game has failed as a whole.
    fn take_failure(&mut self, id: &GameId, error: &WorkerError)
        requires
            old(self).batch matches Some(batch) ==> batch.failed_games < usize::MAX,
        ensures
            operation_failed(*old(self), id@, *error, *final(self)),
            final(self).well_formed() == old(self).well_formed(),
    {
        let name = game_name(self.games.as_slice(), id);
        self.last_error = Some(join_three(&name, ": ", &error.to_text()));
        let mut batch: Option<Batch> = None;
        std::mem::swap(&mut batch, &mut self.batch);
        self.batch = match batch {
            Some(mut batch) => {
                batch.failed_games = batch.failed_games + 1;
                Some(batch)
            },
            None => None,
        };
    }

    /// One more game of a run has reported.
    fn advance_run(&mut self, now: u64)
        requires
            old(self).batch matches Some(batch) ==> batch.done < usize::MAX,
        ensures
            run_advanced(*old(self), now, *final(self)),
            final(self).well_formed() == old(self).well_formed(),
    {
        let mut batch: Option<Batch> = None;
        std::mem::swap(&mut batch, &mut self.batch);
        self.batch = match batch {
            Some(mut batch) => {
                batch.done = batch.done + 1;
                Some(batch)
            },
            None => None,
        };
        self.recount();
        self.backups_loading = true;
        self.finish_batch_if_done(now);
    }

    /// The operation on a game has ended. The result is what the worker has to
    /// be told next: to load the backups anew.
    pub fn handle_upgrade_finished(
        &mut self,
        id: GameId,
        game: Option<GameInstall>,
        result: Result<UpgradeReport, WorkerError>,
        time: &str,
        now: u64,
        now_unix: i64,
    ) -> (next: Command)
        requires
            old(self).well_formed(),
            has_room(old(self).batch, result),
        ensures
            final(self).well_formed(),
            operation_ended(
                *old(self),
                id,
                game,
                result,
                time@,
                now,
                now_unix,
                *final(self),
            ),
            next == Command::RefreshBackups,
    {
        let ghost before = *self;
        let sent = self.close_operation(&id, game);
        let ghost closed = *self;
        match &result {
            Ok(report) => {
                self.take_report(&id, &sent, report, time, now_unix);
            },
            Err(error) => {
                self.take_failure(&id, error);
            },
        }
        let ghost told = *self;
        self.advance_run(now);
        proof {
            assert(operation_closed(before, id@, game, closed));
            assert(operation_outcome(
                closed,
                id,
                sent_for(before, id@),
                result,
                time@,
                now_unix,
                told,
            ));
        }
        Command::RefreshBackups
    }

    /// The worker could not be told to load the backups.
    pub fn backups_unreachable(&mut self)
        ensures
            *final(self) == (Session {
                backups_loading: false,
                backup_warning: final(self).backup_warning,
                ..*old(self)
            }),
            said(final(self).backup_warning) == Some("Background worker stopped unexpectedly"@),
    {
        self.backups_loading = false;
        self.backup_warning = Some("Background worker stopped unexpectedly".to_owned());
    }
}

/// Those of `games` whose last change can be undone now, in their order.
pub open spec fn undo_targets(
    games: Seq<GameId>,
    undoable: Set<Seq<char>>,
    applying: Set<Seq<char>>,
) -> Seq<GameId>
    decreases games.len(),
{
    if games.len() == 0 {
        games
    } else if undoable.contains(games.last()@) && !applying.contains(games.last()@) {
        undo_targets(games.drop_last(), undoable, applying).push(games.last())
    } else {
        undo_targets(games.drop_last(), undoable, applying)
    }
}

/// Whether a table is what entering `games` without choices makes of another.
pub open spec fn are_entered(
    before: Map<Seq<char>, Vec<DllInstallationId>>,
    games: Seq<GameId>,
    after: Map<Seq<char>, Vec<DllInstallationId>>,
) -> bool {
    forall|id: Seq<char>|
        #![trigger after.dom().contains(id)]
        {
            &&& after.dom().contains(id) == (before.dom().contains(id) || holds_game(games, id))
            &&& holds_game(games, id) ==> after[id]@.len() == 0
            &&& before.dom().contains(id) && !holds_game(games, id) ==> after[id] == before[id]
        }
}

/// What a session becomes when the last change of games is to be undone, and
/// what the worker has to be told. Games that cannot be undone now are left
/// out.
pub open spec fn undo_begun(
    before: Session,
    games: Seq<GameId>,
    now: u64,
    commands: Seq<Command>,
    after: Session,
) -> bool {
    let targets = undo_targets(games, before.undoable@.dom(), before.applying@.dom());
    if targets.len() == 0 {
        after == before && commands.len() == 0
    } else {
        &&& exists|begun: Session|
            #[trigger] run_begun(before, BatchKind::Undo, targets, now, begun) && after == (
            Session { applying: after.applying, ..begun })
        &&& are_entered(before.applying@, targets, after.applying@)
        &&& commands.len() == targets.len()
        &&& forall|i: int|
            0 <= i < commands.len() ==> #[trigger] commands[i] == Command::UndoLast(targets[i])
    }
}

/// The identifiers of the DLLs for which a profile has choices.
pub open spec fn chosen_ids(profile: TargetProfile) -> Seq<DllInstallationId> {
    profile.targets@.map_values(|entry: crate::profile::ProfileEntry| entry.id)
}

/// Whether a table is what entering the choices for games makes of another.
pub open spec fn are_choices_entered(
    before: Map<Seq<char>, Vec<DllInstallationId>>,
    choices: Seq<GameChoices>,
    after: Map<Seq<char>, Vec<DllInstallationId>>,
) -> bool {
    &&& forall|id: Seq<char>|
        #![trigger after.dom().contains(id)]
        after.dom().contains(id) == (before.dom().contains(id) || crate::review::has_choices(
            choices,
            id,
        ))
    &&& forall|i: int|
        0 <= i < choices.len() ==> after[(#[trigger] choices[i]).game_id@]@ == chosen_ids(
            choices[i].profile,
        )
}

/// The games that choices are for.
pub open spec fn chosen_games(choices: Seq<GameChoices>) -> Seq<GameId> {
    choices.map_values(|choice: GameChoices| choice.game_id)
}

/// Whether a command sends the choices for a game.
pub open spec fn sends(command: Command, choice: GameChoices) -> bool {
    command matches Command::ApplyProfile(id, profile) && id == choice.game_id
        && profile.targets@ == choice.profile.targets@
}

/// What a session becomes when the checked rows of a review are applied, and
/// what the worker has to be told. While something is queued or running nothing
/// is applied.
pub open spec fn review_applied(
    before: Session,
    rows: Seq<crate::review::ReviewRow>,
    now: u64,
    commands: Seq<Command>,
    after: Session,
) -> bool {
    if is_busy(before) {
        after == before && commands.len() == 0
    } else {
        exists|choices: Seq<GameChoices>, begun: Session|
            {
                &&& #[trigger] crate::review::are_choices_of(rows, choices)
                &&& #[trigger] run_begun(
                    before,
                    BatchKind::Update,
                    chosen_games(choices),
                    now,
                    begun,
                )
                &&& after == (Session { applying: after.applying, ..begun })
                &&& are_choices_entered(before.applying@, choices, after.applying@)
                &&& commands.len() == choices.len()
                &&& forall|i: int|
                    0 <= i < commands.len() ==> sends(#[trigger] commands[i], choices[i])
            }
    }
}

fn enter_games(applying: &mut Keyed<Vec<DllInstallationId>>, games: &Vec<GameId>)
    requires
        old(applying).well_formed(),
    ensures
        final(applying).well_formed(),
        are_entered(old(applying)@, games@, final(applying)@),
{
    let ghost before = applying@;
    let mut at: usize = 0;
    proof {
        assert(are_entered(before, games@.take(0), applying@));
    }
    while at < games.len()
        invariant
            at <= games.len(),
            applying.well_formed(),
            are_entered(before, games@.take(at as int), applying@),
        decreases games.len() - at,
    {
        let ghost done = applying@;
        let nothing: Vec<DllInstallationId> = Vec::new();
        applying.insert(games[at].0.clone(), nothing);
        proof {
            let game = games@[at as int];
            let some = games@.take(at as int);
            let more = games@.take(at + 1);
            assert forall|id: Seq<char>| holds_game(more, id) == (holds_game(some, id) || id
                == game@) by {
                if holds_game(some, id) {
                    let i = choose|i: int| 0 <= i < some.len() && (#[trigger] some[i])@ == id;
                    assert(more[i]@ == id);
                }
                if id == game@ {
                    assert(more[at as int]@ == id);
                }
                if holds_game(more, id) {
                    let i = choose|i: int| 0 <= i < more.len() && (#[trigger] more[i])@ == id;
                    if i < at {
                        assert(some[i]@ == id);
                    }
                }
            }
            assert forall|id: Seq<char>|
                #![trigger applying@.dom().contains(id)]
                {
                    &&& applying@.dom().contains(id) == (before.dom().contains(id) || holds_game(
                        more,
                        id,
                    ))
                    &&& holds_game(more, id) ==> applying@[id]@.len() == 0
                    &&& before.dom().contains(id) && !holds_game(more, id) ==> applying@[id]
                        == before[id]
                } by {
                assert(done.dom().contains(id) == (before.dom().contains(id) || holds_game(
                    some,
                    id,
                )));
            }
        }
        at += 1;
    }
    proof {
        assert(games@.take(at as int) =~= games@);
    }
}

fn list_chosen_ids(profile: &TargetProfile) -> (ids: Vec<DllInstallationId>)
    ensures
        ids@ == chosen_ids(*profile),
{
    let mut ids: Vec<DllInstallationId> = Vec::new();
    let mut at: usize = 0;
    while at < profile.targets.len()
        invariant
            at <= profile.targets.len(),
            ids@ == chosen_ids(*profile).take(at as int),
        decreases profile.targets.len() - at,
    {
        ids.push(profile.targets[at].id.clone());
        at += 1;
        proof {
            assert(ids@ =~= chosen_ids(*profile).take(at as int));
        }
    }
    proof {
        assert(chosen_ids(*profile).take(at as int) =~= chosen_ids(*profile));
    }
    ids
}

fn enter_choices(applying: &mut Keyed<Vec<DllInstallationId>>, choices: &Vec<GameChoices>)
    requires
        old(applying).well_formed(),
        crate::review::games_ascend(choices@),
    ensures
        final(applying).well_formed(),
        are_choices_entered(old(applying)@, choices@, final(applying)@),
{
    let ghost before = applying@;
    let mut at: usize = 0;
    proof {
        assert(are_choices_entered(before, choices@.take(0), applying@));
    }
    while at < choices.len()
        invariant
            at <= choices.len(),
            applying.well_formed(),
            crate::review::games_ascend(choices@),
            are_choices_entered(before, choices@.take(at as int), applying@),
        decreases choices.len() - at,
    {
        let ghost done = applying@;
        let ids = list_chosen_ids(&choices[at].profile);
        applying.insert(choices[at].game_id.0.clone(), ids);
        proof {
            let choice = choices@[at as int];
            let some = choices@.take(at as int);
            let more = choices@.take(at + 1);
            assert forall|id: Seq<char>| crate::review::has_choices(more, id) == (
            crate::review::has_choices(some, id) || id == choice.game_id@) by {
                if crate::review::has_choices(some, id) {
                    let i = choose|i: int|
                        0 <= i < some.len() && (#[trigger] some[i]).game_id@ == id;
                    assert(more[i].game_id@ == id);
                }
                if id == choice.game_id@ {
                    assert(more[at as int].game_id@ == id);
                }
                if crate::review::has_choices(more, id) {
                    let i = choose|i: int|
                        0 <= i < more.len() && (#[trigger] more[i]).game_id@ == id;
                    if i < at {
                        assert(some[i].game_id@ == id);
                    }
                }
            }
            assert forall|id: Seq<char>|
                #![trigger applying@.dom().contains(id)]
                applying@.dom().contains(id) == (before.dom().contains(id)
                    || crate::review::has_choices(more, id)) by {
                assert(done.dom().contains(id) == (before.dom().contains(id)
                    || crate::review::has_choices(some, id)));
            }
            assert forall|i: int| 0 <= i < more.len() implies applying@[(
            #[trigger] more[i]).game_id@]@ == chosen_ids(more[i].profile) by {
                if i < at {
                    assert(some[i] == more[i]);
                    assert(choices@[i] == more[i]);
                    assert(crate::order::precedes(
                        crate::order::code_points(choices@[i].game_id@),
                        crate::order::code_points(choices@[at as int].game_id@),
                    ));
                    crate::order::precedes_is_irreflexive(
                        crate::order::code_points(choice.game_id@),
                    );
                    assert(done[some[i].game_id@]@ == chosen_ids(some[i].profile));
                }
            }
        }
        at += 1;
    }
    proof {
        assert(choices@.take(at as int) =~= choices@);
    }
}

fn list_chosen_games(choices: &Vec<GameChoices>) -> (games: Vec<GameId>)
    ensures
        games@ == chosen_games(choices@),
{
    let mut games: Vec<GameId> = Vec::new();
    let mut at: usize = 0;
    while at < choices.len()
        invariant
            at <= choices.len(),
            games@ == chosen_games(choices@).take(at as int),
        decreases choices.len() - at,
    {
        games.push(choices[at].game_id.clone());
        at += 1;
        proof {
            assert(games@ =~= chosen_games(choices@).take(at as int));
        }
    }
    proof {
        assert(chosen_games(choices@).take(at as int) =~= chosen_games(choices@));
    }
    games
}

fn commands_for(choices: Vec<GameChoices>) -> (commands: Vec<Command>)
    ensures
        commands.len() == choices.len(),
        forall|i: int|
            0 <= i < commands.len() ==> sends(#[trigger] commands@[i], choices@[i]),
{
    let ghost given = choices@;
    let mut rest = choices;
    let mut commands: Vec<Command> = Vec::new();
    while rest.len() > 0
        invariant
            rest.len() + commands.len() == given.len(),
            rest@ == given.skip(commands.len() as int),
            forall|i: int|
                0 <= i < commands.len() ==> sends(#[trigger] commands@[i], given[i]),
        decreases rest.len(),
    {
        let choice = rest.remove(0);
        proof {
            assert(choice == given[commands.len() as int]);
        }
        commands.push(Command::ApplyProfile(choice.game_id, choice.profile));
        proof {
            assert(rest@ =~= given.skip(commands.len() as int));
        }
    }
    commands
}

impl Session {
    /// Those of `games` whose last change can be undone now.
    fn filter_undoable(&self, games: &Vec<GameId>) -> (targets: Vec<GameId>)
        ensures
            targets@ == undo_targets(games@, self.undoable@.dom(), self.applying@.dom()),
    {
        let mut targets: Vec<GameId> = Vec::new();
        let mut at: usize = 0;
        while at < games.len()
            invariant
                at <= games.len(),
                targets@ == undo_targets(
                    games@.take(at as int),
                    self.undoable@.dom(),
                    self.applying@.dom(),
                ),
            decreases games.len() - at,
        {
            proof {
                assert(games@.take(at + 1).drop_last() =~= games@.take(at as int));
            }
            if self.undoable.contains(&games[at].0) && !self.applying.contains(&games[at].0) {
                targets.push(games[at].clone());
            }
            at += 1;
        }
        proof {
            assert(games@.take(at as int) =~= games@);
        }
        targets
    }

    /// Undoes the last change of each of `games`. The result is what the worker
    /// has to be told.
    pub fn start_undo(&mut self, games: Vec<GameId>, now: u64) -> (commands: Vec<Command>)
        requires
            old(self).well_formed(),
        ensures
            final(self).well_formed(),
            undo_begun(*old(self), games@, now, commands@, *final(self)),
    {
        let targets = self.filter_undoable(&games);
        let mut commands: Vec<Command> = Vec::new();
        if targets.len() == 0 {
            return commands;
        }
        let ghost before = *self;
        self.start_batch(BatchKind::Undo, &targets, now);
        proof {
            assert(run_begun(before, BatchKind::Undo, targets@, now, *self));
        }
        enter_games(&mut self.applying, &targets);
        let mut at: usize = 0;
        while at < targets.len()
            invariant
                at <= targets.len(),
                commands.len() == at,
                forall|i: int|
                    0 <= i < at ==> #[trigger] commands@[i] == Command::UndoLast(targets@[i]),
            decreases targets.len() - at,
        {
            commands.push(Command::UndoLast(targets[at].clone()));
            at += 1;
        }
        commands
    }

    /// Applies the checked rows of a review. The result is what the worker has
    /// to be told. One run goes at a time.
    pub fn apply_review(&mut self, rows: &Vec<crate::review::ReviewRow>, now: u64) -> (commands:
        Vec<Command>)
        requires
            old(self).well_formed(),
        ensures
            final(self).well_formed(),
            review_applied(*old(self), rows@, now, commands@, *final(self)),
    {
        if self.busy() {
            return Vec::new();
        }
        let ghost before = *self;
        let choices = crate::review::collect_choices(rows.as_slice());
        let games = list_chosen_games(&choices);
        let ghost all = choices@;
        self.start_batch(BatchKind::Update, &games, now);
        proof {
            assert(run_begun(before, BatchKind::Update, chosen_games(all), now, *self));
            assert(crate::review::are_choices_of(rows@, all));
        }
        enter_choices(&mut self.applying, &choices);
        commands_for(choices)
    }
}

/// Whether only games with DLLs are selected.
pub open spec fn selection_makes_sense(games: Seq<GameRow>) -> bool {
    forall|i: int| 0 <= i < games.len() ==> ((#[trigger] games[i]).selected ==> games[i].dlls > 0)
}

/// A scan leaves no game selected that has no DLLs.
pub proof fn scans_select_no_empty_games(
    previous: Seq<GameRow>,
    found: Seq<GameInstall>,
    latest: Seq<crate::model::CatalogDll>,
    after: Seq<GameRow>,
)
    requires
        is_rescan(previous, found, latest, after),
    ensures
        selection_makes_sense(after),
{
    let fresh = choose|fresh: Seq<GameRow>|
        #[trigger] are_rows_of(fresh, found) && are_recounted(
            carried_rows(previous, fresh),
            latest,
            after,
        );
    assert forall|i: int| 0 <= i < after.len() && (#[trigger] after[i]).selected implies after[i].dlls
        > 0 by {
        assert(after[i] == recounted(carried_rows(previous, fresh)[i], latest));
        assert(is_row_of(fresh[i], found[i]));
    }
}

/// After an operation that can be undone, the game can be undone, and nothing
/// that could be undone before is lost.
pub proof fn finished_operations_can_be_undone(
    before: Session,
    id: GameId,
    game: Option<GameInstall>,
    report: UpgradeReport,
    time: Seq<char>,
    now: u64,
    now_unix: i64,
    after: Session,
)
    requires
        operation_ended(before, id, game, Ok(report), time, now, now_unix, after),
    ensures
        report.can_undo ==> after.undoable@.dom().contains(id@),
        forall|other: Seq<char>|
            before.undoable@.dom().contains(other) ==> #[trigger] after.undoable@.dom().contains(
                other,
            ),
        !after.applying@.dom().contains(id@),
        after.upgrading is None,
{
    let (closed, told) = choose|closed: Session, told: Session|
        #[trigger] operation_closed(before, id@, game, closed) && #[trigger] operation_outcome(
            closed,
            id,
            sent_for(before, id@),
            Ok(report),
            time,
            now_unix,
            told,
        ) && run_advanced(told, now, after);
    assert(report_taken(closed, id, sent_for(before, id@), report, time, now_unix, told));
}

/// An operation drops exactly the choices that were sent for the game: all
/// others stay staged.
pub proof fn unsent_choices_stay_staged(
    before: Session,
    id: GameId,
    game: Option<GameInstall>,
    result: Result<UpgradeReport, WorkerError>,
    time: Seq<char>,
    now: u64,
    now_unix: i64,
    after: Session,
    dll: Seq<char>,
)
    requires
        operation_ended(before, id, game, result, time, now, now_unix, after),
    ensures
        ({
            let sent = sent_for(before, id@);
            let dropped = result is Ok && sent is Some && crate::profile::holds_installation(
                sent->0,
                dll,
            );
            after.persisted.target_profile.staged(dll) == if dropped {
                None
            } else {
                before.persisted.target_profile.staged(dll)
            }
        }),
{
    let (closed, told) = choose|closed: Session, told: Session|
        #[trigger] operation_closed(before, id@, game, closed) && #[trigger] operation_outcome(
            closed,
            id,
            sent_for(before, id@),
            result,
            time,
            now_unix,
            told,
        ) && run_advanced(told, now, after);
    assert(after.persisted == told.persisted);
    if let Ok(report) = result {
        assert(report_taken(closed, id, sent_for(before, id@), report, time, now_unix, told));
        if let Some(ids) = sent_for(before, id@) {
            crate::profile::listed_entries_stay(
                before.persisted.target_profile.targets@,
                id_set(ids).complement(),
            );
        }
    }
}

/// A run ends in one summary when its last game has reported, and not before.
pub proof fn a_run_ends_with_its_last_game(before: Session, now: u64, after: Session)
    requires
        run_advanced(before, now, after),
        before.batch matches Some(batch) && batch.done < batch.total,
    ensures
        ({
            let batch = before.batch->0;
            if batch.done + 1 == batch.total {
                &&& after.batch is None
                &&& after.toast matches Some(toast) && toast.kind != ToastKind::Progress
                    && toast.message@ == run_wording(
                    Batch { done: batch.total, ..batch },
                )
                &&& after.last_change == batch.undoable
            } else {
                &&& after.batch matches Some(going) && going.done == batch.done + 1
                &&& after.toast == before.toast
            }
        }),
{
}

/// Undoing gives the worker exactly the games that can be undone and are not
/// being changed, and marks them as being changed.
pub proof fn undo_asks_for_what_can_be_undone(
    games: Seq<GameId>,
    undoable: Set<Seq<char>>,
    applying: Set<Seq<char>>,
    at: int,
)
    requires
        0 <= at < undo_targets(games, undoable, applying).len(),
    ensures
        undoable.contains(undo_targets(games, undoable, applying)[at]@),
        !applying.contains(undo_targets(games, undoable, applying)[at]@),
        games.contains(undo_targets(games, undoable, applying)[at]),
    decreases games.len(),
{
    let shorter = games.drop_last();
    let before = undo_targets(shorter, undoable, applying);
    if at < before.len() {
        undo_asks_for_what_can_be_undone(shorter, undoable, applying, at);
        let i = choose|i: int| 0 <= i < shorter.len() && shorter[i] == before[at];
        assert(games[i] == before[at]);
    } else {
        assert(games[games.len() - 1] == undo_targets(games, undoable, applying)[at]);
    }
}

} // verus!
