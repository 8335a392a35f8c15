//! What the user does with the indicator, the folders, the staged choices and
//! the keyboard, and how reports of the worker are handed on.

use crate::backups::BackupLoadReport;
use crate::catalog::CatalogSnapshot;
use crate::desk::{lists_path, remove_path, without_path};
use crate::digest::same_hash;
use crate::discovery::{path_views, DiscoveryOutcome};
use crate::imports::ImportedDllRecord;
use crate::labels::{state_label, state_wording};
use crate::latest::{latest_ready, latest_release_ready, tag_text};
use crate::library::{
    filtered_game_rows, is_meant, is_sorted_as, selecting, set_selection, shown_rows, staged_ids,
    GameRow,
};
use crate::model::{
    ActivityRecord, CachedRelease, DesiredDll, DllInstallationId, GameId, GameInstall, ReleaseId,
    ReleaseState,
};
use crate::paths::FilePath;
use crate::profile::{id_set, ids_of, installation_ids, only_listed};
use crate::review::{find_row, game_with_id};
use crate::session::{
    backups_loaded, catalog_refreshed, dll_imported, has_room, import_removed, operation_begun,
    operation_ended, recent, release_advanced, release_prepared, release_removed, said, scan_begun,
    scan_ended, Page, PersistedState, Session,
};
use crate::text::{join_three, join_two, lowercase};
use crate::toast::{is_notified, ToastKind};
use crate::tools::{same_snapshot, same_state, SystemToolState, ToolChangeResult, ToolRestorePoint};
use crate::worker::{worker_error_text, Command, IndicatorRequest, UpgradeReport, WorkerError};
use vstd::prelude::*;

verus! {

/// Whether two restore points say the same.
pub open spec fn same_point(left: ToolRestorePoint, right: ToolRestorePoint) -> bool {
    &&& left.tool_id == right.tool_id
    &&& same_snapshot(left.snapshot, right.snapshot)
    &&& left.state_after_hash == right.state_after_hash
    &&& left.app_version == right.app_version
}

impl Clone for ToolRestorePoint {
    fn clone(&self) -> (copy: ToolRestorePoint)
        ensures
            same_point(copy, *self),
    {
        ToolRestorePoint {
            tool_id: self.tool_id.clone(),
            snapshot: self.snapshot.clone(),
            state_after_hash: self.state_after_hash,
            app_version: self.app_version.clone(),
        }
    }
}

/// What the screen says of the indicator.
pub open spec fn indicator_wording(state: SystemToolState) -> Seq<char> {
    "DLSS indicator: "@ + state_wording(state)
}

/// Whether a record is about the indicator.
pub open spec fn is_indicator_activity(
    record: ActivityRecord,
    applied: bool,
    state: SystemToolState,
    now_unix: i64,
) -> bool {
    &&& record.timestamp_unix == now_unix
    &&& record.kind@ == if applied {
        "tool_change"@
    } else {
        "tool_restore"@
    }
    &&& record.detail@ == indicator_wording(state)
}

/// The restore points after a change or a restore: a change adds one, and a
/// restore uses the last one up.
pub open spec fn points_after(
    points: Seq<ToolRestorePoint>,
    point: Option<ToolRestorePoint>,
) -> Seq<ToolRestorePoint> {
    match point {
        Some(point) => points.push(point),
        None => if points.len() > 0 {
            points.drop_last()
        } else {
            points
        },
    }
}

/// What a session becomes when the indicator has been changed, or not. A
/// failure is shown in the dialog, and where it is closed, for all to see.
pub open spec fn indicator_changed(
    before: Session,
    result: Result<ToolChangeResult, WorkerError>,
    tools_open: bool,
    observed: Option<[u8; 32]>,
    now: u64,
    now_unix: i64,
    after: Session,
) -> bool {
    match result {
        Err(error) => {
            let message = "Indicator change failed: "@ + worker_error_text(error);
            &&& after == (Session {
                last_error: after.last_error,
                tool_error: after.tool_error,
                toast: None,
                ..before
            })
            &&& said(after.tool_error) == Some(message)
            &&& if tools_open {
                after.last_error == before.last_error
            } else {
                said(after.last_error) == Some(message)
            }
        },
        Ok(change) => {
            &&& after == (Session {
                tool_state: change.state,
                persisted: PersistedState {
                    tool_restore_points: after.persisted.tool_restore_points,
                    activity: after.persisted.activity,
                    ..before.persisted
                },
                observed_hash: match observed {
                    Some(hash) => Some(hash),
                    None => before.observed_hash,
                },
                stale_confirmed: false,
                toast: after.toast,
                tool_error: None,
                ..before
            })
            &&& after.persisted.tool_restore_points@ == points_after(
                before.persisted.tool_restore_points@,
                change.restore_point,
            )
            &&& exists|record: ActivityRecord|
                after.persisted.activity@ == recent(before.persisted.activity@.push(record))
                    && #[trigger] is_indicator_activity(
                    record,
                    change.restore_point is Some,
                    change.state,
                    now_unix,
                )
            &&& is_notified(
                before.toast,
                ToastKind::Success,
                indicator_wording(change.state),
                now,
                after.toast,
            )
        },
    }
}

/// What the user is told when the registry value changed behind the program's
/// back.
pub open spec fn stale_wording() -> Seq<char> {
    "The registry value changed outside DLSS Updater. Review the new state, then click again to confirm overwriting it."@
}

/// Whether the registry value changed since it was last seen, and the user was
/// not told yet.
pub open spec fn needs_confirmation(session: Session, current: [u8; 32]) -> bool {
    session.observed_hash matches Some(observed) && observed != current
        && !session.stale_confirmed
}

/// What a session becomes when the user asks for another state of the indicator
/// or for the earlier one, and what the worker has to be told. A value that
/// changed behind the program's back is shown first, and only overwritten when
/// the user asks again.
pub open spec fn indicator_requested(
    before: Session,
    restore: bool,
    current: [u8; 32],
    state: SystemToolState,
    now: u64,
    command: Option<Command>,
    after: Session,
) -> bool {
    let points = before.persisted.tool_restore_points@;
    if needs_confirmation(before, current) {
        &&& command is None
        &&& after == (Session {
            tool_state: state,
            observed_hash: Some(current),
            stale_confirmed: true,
            tool_error: after.tool_error,
            ..before
        })
        &&& said(after.tool_error) == Some(stale_wording())
    } else if restore && points.len() == 0 {
        &&& command is None
        &&& after == (Session { tool_error: after.tool_error, ..before })
        &&& said(after.tool_error) == Some("no restore point is available"@)
    } else {
        &&& after == (Session { tool_error: None, toast: after.toast, ..before })
        &&& is_notified(
            before.toast,
            ToastKind::Progress,
            if restore {
                "Restoring the previous indicator setting…"@
            } else {
                "Changing the DLSS indicator…"@
            },
            now,
            after.toast,
        )
        &&& command matches Some(Command::ChangeIndicator(request)) && {
            &&& same_state(request.desired, before.staged_tool_state)
            &&& request.expected_current_hash == current
            &&& request.allow_stale_restore == (restore && before.stale_confirmed)
            &&& if restore {
                request.restore_point matches Some(point) && same_point(point, points.last())
            } else {
                request.restore_point is None
            }
        }
    }
}

/// A value that changed behind the program's back is never overwritten at the
/// first request, and the user is always told before it is.
pub proof fn changed_values_are_confirmed_first(
    before: Session,
    restore: bool,
    current: [u8; 32],
    state: SystemToolState,
    now: u64,
    command: Option<Command>,
    after: Session,
)
    requires
        indicator_requested(before, restore, current, state, now, command, after),
        before.observed_hash matches Some(observed) && observed != current,
    ensures
        command is Some ==> before.stale_confirmed,
        !before.stale_confirmed ==> said(after.tool_error) == Some(stale_wording())
            && after.tool_state == state,
{
}

fn record_indicator(state: &SystemToolState, applied: bool, now_unix: i64) -> (record:
    ActivityRecord)
    ensures
        is_indicator_activity(record, applied, *state, now_unix),
{
    ActivityRecord {
        timestamp_unix: now_unix,
        kind: if applied {
            "tool_change".to_owned()
        } else {
            "tool_restore".to_owned()
        },
        detail: join_two("DLSS indicator: ", &state_label(state)),
    }
}

impl PersistedState {
    /// Adds a restore point, or uses the last one up.
    fn note_restore_point(&mut self, point: Option<ToolRestorePoint>)
        ensures
            *final(self) == (PersistedState {
                tool_restore_points: final(self).tool_restore_points,
                ..*old(self)
            }),
            final(self).tool_restore_points@ == points_after(
                old(self).tool_restore_points@,
                point,
            ),
    {
        match point {
            Some(point) => {
                self.tool_restore_points.push(point);
            },
            None => {
                self.tool_restore_points.pop();
            },
        }
    }
}

impl Session {
    /// The change of the indicator failed.
    fn fail_indicator(&mut self, error: &WorkerError, tools_open: bool)
        ensures
            *final(self) == (Session {
                last_error: final(self).last_error,
                tool_error: final(self).tool_error,
                toast: None,
                ..*old(self)
            }),
            said(final(self).tool_error) == Some(
                "Indicator change failed: "@ + worker_error_text(*error),
            ),
            if tools_open {
                final(self).last_error == old(self).last_error
            } else {
                said(final(self).last_error) == Some(
                    "Indicator change failed: "@ + worker_error_text(*error),
                )
            },
    {
        let message = join_two("Indicator change failed: ", &error.to_text());
        if !tools_open {
            self.last_error = Some(message.clone());
        }
        self.tool_error = Some(message);
        self.toast = None;
    }

    /// The indicator has been changed, or not. `observed` is the digest of its
    /// registry value as it is now, if it could be read.
    pub fn handle_indicator_finished(
        &mut self,
        result: Result<ToolChangeResult, WorkerError>,
        tools_open: bool,
        observed: Option<[u8; 32]>,
        now: u64,
        now_unix: i64,
    )
        requires
            old(self).well_formed(),
        ensures
            final(self).well_formed(),
            indicator_changed(
                *old(self),
                result,
                tools_open,
                observed,
                now,
                now_unix,
                *final(self),
            ),
    {
        match result {
            Err(error) => {
                self.fail_indicator(&error, tools_open);
            },
            Ok(change) => {
                let record = record_indicator(
                    &change.state,
                    change.restore_point.is_some(),
                    now_unix,
                );
                let message = join_two("DLSS indicator: ", &state_label(&change.state));
                proof {
                    assert(is_indicator_activity(
                        record,
                        change.restore_point is Some,
                        change.state,
                        now_unix,
                    ));
                }
                self.tool_state = change.state;
                self.persisted.note_restore_point(change.restore_point);
                if let Some(hash) = observed {
                    self.observed_hash = Some(hash);
                }
                self.stale_confirmed = false;
                self.persisted.record(record);
                self.tell(ToastKind::Success, message, now);
                self.tool_error = None;
            },
        }
    }

    /// The state of the indicator has been read, or not.
    pub fn refresh_tool_state(&mut self, read: Result<(SystemToolState, [u8; 32]), String>)
        ensures
            match read {
                Ok((state, hash)) => *final(self) == (Session {
                    tool_state: state,
                    observed_hash: Some(hash),
                    stale_confirmed: false,
                    tool_error: None,
                    ..*old(self)
                }),
                Err(message) => *final(self) == (Session {
                    tool_error: Some(message),
                    ..*old(self)
                }),
            },
    {
        match read {
            Ok((state, hash)) => {
                self.tool_state = state;
                self.observed_hash = Some(hash);
                self.stale_confirmed = false;
                self.tool_error = None;
            },
            Err(message) => {
                self.tool_error = Some(message);
            },
        }
    }

    /// Offers the current state of the indicator for a change.
    pub fn stage_tool_state(&mut self)
        ensures
            *final(self) == (Session {
                staged_tool_state: final(self).staged_tool_state,
                ..*old(self)
            }),
            same_state(final(self).staged_tool_state, old(self).tool_state),
    {
        self.staged_tool_state = self.tool_state.clone();
    }

    /// The user asks for the staged state of the indicator, or for the earlier
    /// one. `current` and `state` are the digest of its registry value and its
    /// state as they are now.
    pub fn change_indicator(
        &mut self,
        restore: bool,
        current: [u8; 32],
        state: SystemToolState,
        now: u64,
    ) -> (command: Option<Command>)
        ensures
            indicator_requested(
                *old(self),
                restore,
                current,
                state,
                now,
                command,
                *final(self),
            ),
            final(self).well_formed() == old(self).well_formed(),
    {
        let changed = match &self.observed_hash {
            Some(observed) => !same_hash(observed, &current),
            None => false,
        };
        if changed && !self.stale_confirmed {
            self.tool_state = state;
            self.observed_hash = Some(current);
            self.stale_confirmed = true;
            self.tool_error = Some(
                "The registry value changed outside DLSS Updater. Review the new state, then click again to confirm overwriting it.".to_owned(),
            );
            return None;
        }
        let count: usize = self.persisted.tool_restore_points.len();
        let restore_point = if restore {
            if count == 0 {
                self.tool_error = Some("no restore point is available".to_owned());
                return None;
            }
            Some(self.persisted.tool_restore_points[count - 1].clone())
        } else {
            None
        };
        let request = IndicatorRequest {
            desired: self.staged_tool_state.clone(),
            restore_point,
            expected_current_hash: current,
            allow_stale_restore: restore && self.stale_confirmed,
        };
        self.tool_error = None;
        let message = if restore {
            "Restoring the previous indicator setting…".to_owned()
        } else {
            "Changing the DLSS indicator…".to_owned()
        };
        self.tell(ToastKind::Progress, message, now);
        Some(Command::ChangeIndicator(request))
    }

    /// The user adds a folder, once it is known where it really is. The result
    /// is what the worker has to be told. An error calls the folder by `shown`,
    /// its path as the platform spells it.
    pub fn add_custom_root(&mut self, shown: &str, resolved: Result<FilePath, String>) -> (
        command: Option<Command>)
        ensures
            match resolved {
                Ok(found) => {
                    &&& *final(self) == (Session {
                        persisted: PersistedState {
                            custom_roots: final(self).persisted.custom_roots,
                            ..old(self).persisted
                        },
                        ..*old(self)
                    })
                    &&& final(self).persisted.custom_roots@ == if path_views(
                        old(self).persisted.custom_roots@,
                    ).contains(found@) {
                        old(self).persisted.custom_roots@
                    } else {
                        old(self).persisted.custom_roots@.push(found)
                    }
                    &&& command == Some(Command::AddRoot(found))
                },
                Err(message) => {
                    &&& command is None
                    &&& *final(self) == (Session {
                        last_error: final(self).last_error,
                        ..*old(self)
                    })
                    &&& said(final(self).last_error) == Some(
                        "Could not add "@ + shown@ + ": "@ + message@,
                    )
                },
            },
    {
        match resolved {
            Ok(found) => {
                if !lists_path(self.persisted.custom_roots.as_slice(), &found) {
                    self.persisted.custom_roots.push(found.clone());
                }
                Some(Command::AddRoot(found))
            },
            Err(message) => {
                self.last_error = Some(
                    join_two(&join_three("Could not add ", shown, ": "), &message),
                );
                None
            },
        }
    }

    /// The user removes a folder. Its text decides, so that a folder that is
    /// gone from the disk can be removed. The result is what the worker has to
    /// be told.
    pub fn remove_custom_root(&mut self, root: &FilePath) -> (command: Command)
        ensures
            *final(self) == (Session {
                persisted: PersistedState {
                    custom_roots: final(self).persisted.custom_roots,
                    ..old(self).persisted
                },
                ..*old(self)
            }),
            final(self).persisted.custom_roots@ == without_path(
                old(self).persisted.custom_roots@,
                root@,
            ),
            command == Command::RemoveRoot(*root),
    {
        self.persisted.custom_roots = remove_path(&self.persisted.custom_roots, root);
        Command::RemoveRoot(root.clone())
    }

    /// Drops the choices that are staged for a game.
    pub fn clear_game_profile(&mut self, id: &GameId)
        requires
            old(self).well_formed(),
        ensures
            final(self).well_formed(),
            *final(self) == (Session {
                persisted: PersistedState {
                    target_profile: final(self).persisted.target_profile,
                    ..old(self).persisted
                },
                ..*old(self)
            }),
            match game_with_id(old(self).games@, id@) {
                Some(game) => final(self).persisted.target_profile.targets@ == only_listed(
                    old(self).persisted.target_profile.targets@,
                    id_set(ids_of(game.details@)).complement(),
                ),
                None => final(self).persisted.target_profile
                    == old(self).persisted.target_profile,
            },
    {
        if let Some(at) = find_row(self.games.as_slice(), id) {
            let ids = installation_ids(self.games[at].details.as_slice());
            self.persisted.target_profile = self.persisted.target_profile.part(
                ids.as_slice(),
                false,
            );
        }
    }

    /// Stages a choice for a DLL. To keep what is installed is no choice.
    pub fn stage(&mut self, id: DllInstallationId, desired: DesiredDll)
        requires
            old(self).well_formed(),
        ensures
            final(self).well_formed(),
            *final(self) == (Session {
                persisted: PersistedState {
                    target_profile: final(self).persisted.target_profile,
                    ..old(self).persisted
                },
                ..*old(self)
            }),
            final(self).persisted.target_profile.staged(id@) == if desired is KeepInstalled {
                None
            } else {
                Some(desired)
            },
            forall|other: Seq<char>|
                other != id@ ==> #[trigger] final(self).persisted.target_profile.staged(other)
                    == old(self).persisted.target_profile.staged(other),
    {
        match desired {
            DesiredDll::KeepInstalled => {
                self.persisted.target_profile.remove(&id);
            },
            other => {
                self.persisted.target_profile.insert(id, other);
            },
        }
    }

    /// The worker is gone. What it was doing is not going on any more, and the
    /// user is told once.
    pub fn worker_stopped(&mut self)
        ensures
            if old(self).worker_connected {
                &&& *final(self) == (Session {
                    worker_connected: false,
                    scanning: false,
                    catalog_loading: false,
                    upgrading: None,
                    applying: final(self).applying,
                    batch: None,
                    toast: None,
                    last_error: final(self).last_error,
                    ..*old(self)
                })
                &&& final(self).applying.well_formed()
                &&& final(self).applying@ == Map::<Seq<char>, Vec<DllInstallationId>>::empty()
                &&& said(final(self).last_error) == Some(
                    "Background worker stopped unexpectedly"@,
                )
            } else {
                *final(self) == *old(self)
            },
    {
        if self.worker_connected {
            self.worker_connected = false;
            self.scanning = false;
            self.catalog_loading = false;
            self.upgrading = None;
            self.applying = crate::keyed::Keyed::new();
            self.batch = None;
            self.toast = None;
            self.last_error = Some("Background worker stopped unexpectedly".to_owned());
        }
    }
}

/// What the worker reports.
#[derive(Debug, PartialEq, Eq)]
pub enum Event {
    Warning(String),
    ScanStarted,
    ScanFinished(Result<DiscoveryOutcome, WorkerError>),
    BackupsStarted,
    BackupsFinished(Result<BackupLoadReport, WorkerError>),
    CatalogStarted,
    CatalogFinished(Result<CatalogSnapshot, WorkerError>),
    ReleaseFinished(Result<CachedRelease, WorkerError>),
    ReleaseRemoved(Result<ReleaseId, WorkerError>),
    ImportsLoaded(Vec<ImportedDllRecord>),
    ImportFinished(Result<ImportedDllRecord, WorkerError>),
    ImportRemoved(Result<[u8; 32], WorkerError>),
    ReleaseProgress { id: ReleaseId, state: ReleaseState, received: u64, total: Option<u64> },
    UpgradeStarted(GameId),
    UpgradeFinished {
        game_id: GameId,
        game: Option<GameInstall>,
        result: Result<UpgradeReport, WorkerError>,
    },
    IndicatorFinished(Result<ToolChangeResult, WorkerError>),
}

/// What else there is to know when the worker reports.
#[derive(Debug, PartialEq, Eq)]
pub struct Surroundings {
    /// Milliseconds of a clock that does not go back.
    pub now: u64,
    /// Seconds since the Unix epoch.
    pub now_unix: i64,
    /// The time of day in words.
    pub time: String,
    /// Whether the dialog of the indicator is open.
    pub tools_open: bool,
    /// The digest of the indicator's registry value, if it could be read.
    pub indicator_hash: Option<[u8; 32]>,
}

/// Whether the counts of a run have room for an event.
pub open spec fn can_take(session: Session, event: Event) -> bool {
    match event {
        Event::UpgradeStarted(_) => session.batch matches Some(batch) ==> batch.done < usize::MAX,
        Event::UpgradeFinished { game_id: _, game: _, result } => has_room(session.batch, result),
        _ => true,
    }
}

/// What a session becomes with an event.
pub open spec fn event_taken(
    before: Session,
    event: Event,
    around: Surroundings,
    after: Session,
) -> bool {
    match event {
        Event::Warning(warning) => after == (Session { last_error: Some(warning), ..before }),
        Event::ScanStarted => scan_begun(before, after),
        Event::ScanFinished(result) => scan_ended(before, result, after),
        Event::BackupsStarted => after == (Session { backups_loading: true, ..before }),
        Event::BackupsFinished(result) => backups_loaded(before, result, after),
        Event::CatalogStarted => after == (Session {
            catalog_loading: true,
            catalog_error: None,
            ..before
        }),
        Event::CatalogFinished(result) => catalog_refreshed(before, result, after),
        Event::ReleaseFinished(result) => release_prepared(before, result, around.now, after),
        Event::ReleaseRemoved(result) => release_removed(before, result, around.now, after),
        Event::ImportsLoaded(records) => after == (Session {
            imports: crate::imports::ImportIndex { records },
            ..before
        }),
        Event::ImportFinished(result) => dll_imported(before, result, around.now, after),
        Event::ImportRemoved(result) => import_removed(before, result, after),
        Event::ReleaseProgress { id, state, received, total } => release_advanced(
            before,
            id,
            state,
            received,
            total,
            around.now,
            after,
        ),
        Event::UpgradeStarted(id) => operation_begun(before, id, around.now, after),
        Event::UpgradeFinished { game_id, game, result } => operation_ended(
            before,
            game_id,
            game,
            result,
            around.time@,
            around.now,
            around.now_unix,
            after,
        ),
        Event::IndicatorFinished(result) => indicator_changed(
            before,
            result,
            around.tools_open,
            around.indicator_hash,
            around.now,
            around.now_unix,
            after,
        ),
    }
}

impl Session {
    /// Takes what the worker reports. The result is what the worker has to be
    /// told next, if anything.
    pub fn handle_worker_event(&mut self, event: Event, around: &Surroundings) -> (next: Option<
        Command,
    >)
        requires
            old(self).well_formed(),
            can_take(*old(self), event),
        ensures
            final(self).well_formed(),
            event_taken(*old(self), event, *around, *final(self)),
            next == if event is UpgradeFinished {
                Some(Command::RefreshBackups)
            } else {
                None
            },
    {
        match event {
            Event::Warning(warning) => {
                self.last_error = Some(warning);
            },
            Event::ScanStarted => {
                self.handle_scan_started();
            },
            Event::ScanFinished(result) => {
                self.handle_scan_finished(result);
            },
            Event::BackupsStarted => {
                self.backups_loading = true;
            },
            Event::BackupsFinished(result) => {
                self.handle_backups_finished(result);
            },
            Event::CatalogStarted => {
                self.catalog_loading = true;
                self.catalog_error = None;
            },
            Event::CatalogFinished(result) => {
                self.handle_catalog_finished(result);
            },
            Event::ReleaseFinished(result) => {
                self.handle_release_finished(result, around.now);
            },
            Event::ReleaseRemoved(result) => {
                self.handle_release_removed(result, around.now);
            },
            Event::ImportsLoaded(records) => {
                self.imports = crate::imports::ImportIndex { records };
            },
            Event::ImportFinished(result) => {
                self.handle_import_finished(result, around.now);
            },
            Event::ImportRemoved(result) => {
                self.handle_import_removed(result);
            },
            Event::ReleaseProgress { id, state, received, total } => {
                self.handle_release_progress(id, state, received, total, around.now);
            },
            Event::UpgradeStarted(id) => {
                self.handle_upgrade_started(id, around.now);
            },
            Event::UpgradeFinished { game_id, game, result } => {
                let next = self.handle_upgrade_finished(
                    game_id,
                    game,
                    result,
                    &around.time,
                    around.now,
                    around.now_unix,
                );
                return Some(next);
            },
            Event::IndicatorFinished(result) => {
                self.handle_indicator_finished(
                    result,
                    around.tools_open,
                    around.indicator_hash,
                    around.now,
                    around.now_unix,
                );
            },
        }
        None
    }
}

/// The keys that were pressed.
#[derive(Clone, Copy, Debug, PartialEq, Eq, Structural)]
pub struct Keys {
    pub focus_search: bool,
    pub rescan: bool,
    pub escape: bool,
    pub select_all: bool,
}

/// The page after a jump to the search box, which is in the library.
pub open spec fn page_for_search(page: Page, keys: Keys) -> Page {
    if keys.focus_search {
        Page::Library
    } else {
        page
    }
}

/// Whether `after` are the rows of `before`, with those that `rows` means
/// selected or cleared.
pub open spec fn are_selected(
    before: Seq<GameRow>,
    selected: bool,
    rows: Option<Seq<usize>>,
    after: Seq<GameRow>,
) -> bool {
    after.len() == before.len() && forall|i: int|
        0 <= i < after.len() ==> #[trigger] after[i] == if is_meant(rows, i) {
            selecting(before[i], selected)
        } else {
            before[i]
        }
}

/// Whether the latest release of a session is downloaded and checked.
pub open spec fn is_latest_ready(session: Session) -> bool {
    latest_ready(session.releases@, tag_text(session.catalog_release)) is Some
}

/// Whether `rows` are what the library shows.
pub open spec fn are_shown(session: Session, rows: Seq<usize>) -> bool {
    is_sorted_as(
        shown_rows(
            session.games@,
            lowercase(session.filter.search@),
            session.filter.store,
            session.filter.tab,
            staged_ids(session.games@, session.persisted.target_profile),
        ),
        session.games@,
        session.filter.sort,
        is_latest_ready(session),
        rows,
    )
}

/// What a session becomes when keys are pressed. While a dialog is open the keys
/// belong to it.
pub open spec fn keys_pressed(
    before: Session,
    keys: Keys,
    dialog_open: bool,
    after: Session,
) -> bool {
    let page = page_for_search(before.page, keys);
    if dialog_open || before.review is Some || !before.persisted.disclaimer_acknowledged {
        after == before
    } else {
        &&& after == (Session { page: after.page, games: after.games, ..before })
        &&& after.page == if keys.escape {
            Page::Library
        } else {
            page
        }
        &&& if page is Library && keys.escape {
            are_selected(before.games@, false, None, after.games@)
        } else if page is Library && keys.select_all {
            exists|rows: Seq<usize>|
                #[trigger] are_shown(Session { page, ..before }, rows) && are_selected(
                    before.games@,
                    true,
                    Some(rows),
                    after.games@,
                )
        } else {
            after.games == before.games
        }
    }
}

impl Session {
    /// The rows that the library shows, sorted.
    pub fn shown(&self) -> (rows: Vec<usize>)
        ensures
            are_shown(*self, rows@),
            forall|i: int| 0 <= i < rows.len() ==> #[trigger] rows@[i] < self.games.len(),
    {
        let ready = latest_release_ready(self.releases.as_slice(), &self.catalog_release);
        filtered_game_rows(
            self.games.as_slice(),
            &self.filter,
            &self.persisted.target_profile,
            ready,
        )
    }

    /// Selects or clears rows of the library, or all of them.
    pub fn select(&mut self, selected: bool, rows: Option<&[usize]>)
        requires
            rows matches Some(rows) ==> forall|i: int|
                0 <= i < rows@.len() ==> #[trigger] rows@[i] < old(self).games.len(),
        ensures
            *final(self) == (Session { games: final(self).games, ..*old(self) }),
            are_selected(
                old(self).games@,
                selected,
                match rows {
                    Some(rows) => Some(rows@),
                    None => None,
                },
                final(self).games@,
            ),
    {
        set_selection(&mut self.games, selected, rows);
    }

    /// Keys are pressed. The result is what the worker has to be told.
    pub fn handle_shortcuts(&mut self, keys: Keys, dialog_open: bool) -> (command: Option<Command>)
        ensures
            keys_pressed(*old(self), keys, dialog_open, *final(self)),
            final(self).well_formed() == old(self).well_formed(),
            command == if keys.rescan && !old(self).scanning && !dialog_open
                && old(self).review is None && old(self).persisted.disclaimer_acknowledged {
                Some(Command::Scan)
            } else {
                None
            },
    {
        if dialog_open || self.review.is_some() || !self.persisted.disclaimer_acknowledged {
            return None;
        }
        if keys.focus_search {
            self.page = Page::Library;
        }
        let in_library = match &self.page {
            Page::Library => true,
            Page::Game(_) => false,
        };
        if keys.escape {
            if in_library {
                self.select(false, None);
            } else {
                self.page = Page::Library;
            }
        } else if in_library && keys.select_all {
            let rows = self.shown();
            proof {
                assert(are_shown(
                    Session { page: page_for_search(old(self).page, keys), ..*old(self) },
                    rows@,
                ));
            }
            self.select(true, Some(rows.as_slice()));
        }
        if keys.rescan && !self.scanning {
            Some(Command::Scan)
        } else {
            None
        }
    }
}

} // verus!
