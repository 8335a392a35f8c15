//! What the background worker makes of the results that it gathers.

use crate::archive::{catalog_error_text, CatalogError};
use crate::digest::{padded_hex, padded_hex_digits, push_hex};
use crate::elevation::{is_nonce, is_nonce_char, result_of, result_path};
use crate::github::{github_error_text, GithubError};
use crate::lists::{picks, picks_grow, picks_nothing};
use crate::model::{
    mirrored, BatchResult, Comparison, ElevatedFilePlan, GameId, OperationPlan, PlannedSwap,
    SwapResult,
};
use crate::paths::FilePath;
use crate::release::PrepareError;
use crate::text::{chars_of, join_two};
use crate::tools::{
    SystemToolId, SystemToolState, ToolChangePlan, ToolRestorePoint, DLSS_INDICATOR_TOOL_ID,
};
use crate::traits::{error_text, lacks_privileges, CoreError};
use vstd::prelude::*;

verus! {

/// Why the worker could not do what it was told.
#[derive(Debug, PartialEq, Eq)]
pub enum WorkerError {
    Core(CoreError),
    Catalog(CatalogError),
    Github(GithubError),
    Io { permission_denied: bool, message: String },
    Unavailable(&'static str),
    State(String),
    Elevation(String),
}

/// How an error is worded.
pub open spec fn worker_error_text(error: WorkerError) -> Seq<char> {
    match error {
        WorkerError::Core(error) => error_text(error),
        WorkerError::Catalog(error) => catalog_error_text(error),
        WorkerError::Github(error) => github_error_text(error),
        WorkerError::Io { permission_denied: _, message } => "I/O error: "@ + message@,
        WorkerError::Unavailable(what) => what@,
        WorkerError::State(message) => "invalid worker state: "@ + message@,
        WorkerError::Elevation(message) => "elevation failed: "@ + message@,
    }
}

impl WorkerError {
    /// The error in words.
    pub fn to_text(&self) -> (text: String)
        ensures
            text@ == worker_error_text(*self),
    {
        match self {
            WorkerError::Core(error) => error.to_text(),
            WorkerError::Catalog(error) => error.to_text(),
            WorkerError::Github(error) => error.to_text(),
            WorkerError::Io { permission_denied: _, message } => join_two("I/O error: ", message),
            WorkerError::Unavailable(what) => (*what).to_owned(),
            WorkerError::State(message) => join_two("invalid worker state: ", message),
            WorkerError::Elevation(message) => join_two("elevation failed: ", message),
        }
    }
}

/// The error of the worker that an error of the file system makes.
pub open spec fn is_file_failure(error: CoreError, told: WorkerError) -> bool {
    match error {
        CoreError::Io { permission_denied, message } => told == (WorkerError::Io {
            permission_denied,
            message,
        }),
        _ => told matches WorkerError::Io { permission_denied, message } && permission_denied
            == lacks_privileges(error) && message@ == error_text(error),
    }
}

/// The error of the worker that an error of the file system makes.
pub fn file_failure(error: CoreError) -> (told: WorkerError)
    ensures
        is_file_failure(error, told),
{
    match error {
        CoreError::Io { permission_denied, message } => WorkerError::Io {
            permission_denied,
            message,
        },
        other => {
            let permission_denied = other.is_permission_denied();
            WorkerError::Io { permission_denied, message: other.to_text() }
        },
    }
}

/// The error of the worker that a failed preparation makes.
pub fn prepare_failure(error: PrepareError) -> (told: WorkerError)
    ensures
        match error {
            PrepareError::File(error) => is_file_failure(error, told),
            PrepareError::Catalog(error) => told == WorkerError::Catalog(error),
            PrepareError::Github(error) => told == WorkerError::Github(error),
        },
{
    match error {
        PrepareError::File(error) => file_failure(error),
        PrepareError::Catalog(error) => WorkerError::Catalog(error),
        PrepareError::Github(error) => WorkerError::Github(error),
    }
}

/// The error of the worker that a failed start of the helper makes. A prompt
/// that the user dismissed is put in plain words.
pub fn elevation_error(error: CoreError) -> (told: WorkerError)
    ensures
        told matches WorkerError::Elevation(message) && message@ == match error {
            CoreError::Cancelled => "elevation was cancelled"@,
            other => error_text(other),
        },
{
    match error {
        CoreError::Cancelled => WorkerError::Elevation("elevation was cancelled".to_owned()),
        other => WorkerError::Elevation(other.to_text()),
    }
}

/// What the worker can be told to do.
#[derive(Debug, PartialEq, Eq)]
pub enum Command {
    Scan,
    RefreshBackups,
    RefreshCatalog,
    InspectRelease(crate::model::ReleaseId),
    RemoveRelease(crate::model::ReleaseId),
    UpgradeLatest(GameId),
    ApplyProfile(GameId, crate::profile::TargetProfile),
    UndoLast(GameId),
    AddRoot(FilePath),
    RemoveRoot(FilePath),
    ImportDll(FilePath),
    RemoveImport([u8; 32]),
    ChangeIndicator(IndicatorRequest),
    Shutdown,
}

/// A change of the DLSS indicator that the user has confirmed.
#[derive(Debug, PartialEq, Eq)]
pub struct IndicatorRequest {
    pub desired: SystemToolState,
    /// What to go back to; `None` asks for `desired`.
    pub restore_point: Option<ToolRestorePoint>,
    pub expected_current_hash: [u8; 32],
    pub allow_stale_restore: bool,
}

/// The name under which a command is logged.
pub open spec fn logged_name(command: Command) -> Seq<char> {
    match command {
        Command::Scan => "scan"@,
        Command::RefreshBackups => "refresh_backups"@,
        Command::RefreshCatalog => "refresh_catalog"@,
        Command::InspectRelease(_) => "inspect_release"@,
        Command::RemoveRelease(_) => "remove_release"@,
        Command::UpgradeLatest(_) => "upgrade_latest"@,
        Command::ApplyProfile(_, _) => "apply_profile"@,
        Command::UndoLast(_) => "undo_last"@,
        Command::AddRoot(_) => "add_root"@,
        Command::RemoveRoot(_) => "remove_root"@,
        Command::ImportDll(_) => "import_dll"@,
        Command::RemoveImport(_) => "remove_import"@,
        Command::ChangeIndicator(_) => "change_indicator"@,
        Command::Shutdown => "shutdown"@,
    }
}

/// The name under which a command is logged.
pub fn command_name(command: &Command) -> (name: &'static str)
    ensures
        name@ == logged_name(*command),
{
    match command {
        Command::Scan => "scan",
        Command::RefreshBackups => "refresh_backups",
        Command::RefreshCatalog => "refresh_catalog",
        Command::InspectRelease(_) => "inspect_release",
        Command::RemoveRelease(_) => "remove_release",
        Command::UpgradeLatest(_) => "upgrade_latest",
        Command::ApplyProfile(_, _) => "apply_profile",
        Command::UndoLast(_) => "undo_last",
        Command::AddRoot(_) => "add_root",
        Command::RemoveRoot(_) => "remove_root",
        Command::ImportDll(_) => "import_dll",
        Command::RemoveImport(_) => "remove_import",
        Command::ChangeIndicator(_) => "change_indicator",
        Command::Shutdown => "shutdown",
    }
}

/// What became of an operation on a game.
#[derive(Debug, PartialEq, Eq)]
pub struct UpgradeReport {
    pub changed: usize,
    pub failed: usize,
    /// The tag of the release, or `Undo`.
    pub release: String,
    pub can_undo: bool,
    pub warning: Option<String>,
    pub undo_plan: Option<OperationPlan>,
}

/// The swaps that failed for lack of privileges, in their order.
pub open spec fn denied_of(swaps: Seq<PlannedSwap>, results: Seq<SwapResult>) -> Seq<PlannedSwap>
    decreases swaps.len(),
{
    if swaps.len() == 0 || results.len() == 0 {
        Seq::empty()
    } else {
        let before = denied_of(swaps.drop_last(), results.drop_last());
        if results.last().denied {
            before.push(swaps.last())
        } else {
            before
        }
    }
}

/// The swaps that failed for lack of privileges, in their order.
pub fn denied_swaps(plan: &OperationPlan, result: &BatchResult) -> (denied: Vec<PlannedSwap>)
    requires
        result.swaps.len() == plan.swaps.len(),
    ensures
        denied@ == denied_of(plan.swaps@, result.swaps@),
{
    let mut denied: Vec<PlannedSwap> = Vec::new();
    let mut at: usize = 0;
    while at < plan.swaps.len()
        invariant
            at <= plan.swaps.len(),
            result.swaps.len() == plan.swaps.len(),
            denied@ == denied_of(plan.swaps@.take(at as int), result.swaps@.take(at as int)),
        decreases plan.swaps.len() - at,
    {
        proof {
            assert(plan.swaps@.take(at + 1).drop_last() =~= plan.swaps@.take(at as int));
            assert(result.swaps@.take(at + 1).drop_last() =~= result.swaps@.take(at as int));
        }
        if result.swaps[at].denied {
            denied.push(plan.swaps[at].clone());
        }
        at += 1;
    }
    proof {
        assert(plan.swaps@.take(at as int) =~= plan.swaps@);
        assert(result.swaps@.take(at as int) =~= result.swaps@);
    }
    denied
}

/// The position of the first result about the installation `id`, or the number
/// of results if there is none.
pub open spec fn result_position(results: Seq<SwapResult>, id: Seq<char>) -> int
    decreases results.len(),
{
    if results.len() == 0 {
        0
    } else {
        let before = result_position(results.drop_last(), id);
        if before < results.len() - 1 {
            before
        } else if results.last().installation@ == id {
            results.len() - 1
        } else {
            results.len() as int
        }
    }
}

/// The results with `told` in place of the first one about the same
/// installation. A result about an installation that is not there is dropped.
pub open spec fn with_result(results: Seq<SwapResult>, told: SwapResult) -> Seq<SwapResult> {
    let at = result_position(results, told.installation@);
    if at < results.len() {
        results.update(at, told)
    } else {
        results
    }
}

/// The results after the helper reported `elevated`.
pub open spec fn merged_results(
    results: Seq<SwapResult>,
    elevated: Seq<SwapResult>,
) -> Seq<SwapResult>
    decreases elevated.len(),
{
    if elevated.len() == 0 {
        results
    } else {
        with_result(merged_results(results, elevated.drop_last()), elevated.last())
    }
}

fn put_result(results: &mut Vec<SwapResult>, told: SwapResult)
    ensures
        final(results)@ == with_result(old(results)@, told),
        final(results).len() == old(results).len(),
{
    let mut found: usize = 0;
    let mut at: usize = 0;
    while at < results.len()
        invariant
            at <= results.len(),
            found <= at,
            results@ == old(results)@,
            found == result_position(results@.take(at as int), told.installation@),
        decreases results.len() - at,
    {
        proof {
            assert(results@.take(at + 1).drop_last() =~= results@.take(at as int));
        }
        if found == at && !results[at].installation.same(&told.installation) {
            found = at + 1;
        }
        at += 1;
    }
    proof {
        assert(results@.take(at as int) =~= results@);
    }
    if found < results.len() {
        results.set(found, told);
    }
}

fn merge_results(results: Vec<SwapResult>, elevated: &Vec<SwapResult>) -> (merged: Vec<SwapResult>)
    ensures
        merged@ == merged_results(results@, elevated@),
        merged.len() == results.len(),
{
    let ghost start = results@;
    let mut merged = results;
    let mut at: usize = 0;
    while at < elevated.len()
        invariant
            at <= elevated.len(),
            merged@ == merged_results(start, elevated@.take(at as int)),
            merged.len() == start.len(),
        decreases elevated.len() - at,
    {
        proof {
            assert(elevated@.take(at + 1).drop_last() =~= elevated@.take(at as int));
        }
        put_result(&mut merged, elevated[at].clone());
        at += 1;
    }
    proof {
        assert(elevated@.take(at as int) =~= elevated@);
    }
    merged
}

/// How many swaps succeeded.
pub open spec fn count_changed(results: Seq<SwapResult>) -> nat
    decreases results.len(),
{
    if results.len() == 0 {
        0
    } else {
        count_changed(results.drop_last()) + if results.last().result is Ok {
            1nat
        } else {
            0nat
        }
    }
}

fn changed_swaps(results: &Vec<SwapResult>) -> (changed: usize)
    ensures
        changed == count_changed(results@),
        changed <= results.len(),
{
    let mut changed: usize = 0;
    let mut at: usize = 0;
    while at < results.len()
        invariant
            at <= results.len(),
            changed <= at,
            changed == count_changed(results@.take(at as int)),
        decreases results.len() - at,
    {
        proof {
            assert(results@.take(at + 1).drop_last() =~= results@.take(at as int));
        }
        if results[at].result.is_ok() {
            changed += 1;
        }
        at += 1;
    }
    proof {
        assert(results@.take(at as int) =~= results@);
    }
    changed
}

/// The swap that takes a successful swap back: the backup in place of what was
/// installed.
pub open spec fn undo_of(swap: PlannedSwap, told: SwapResult) -> Option<PlannedSwap> {
    match (told.result, told.backup) {
        (Ok(installed), Some(backup)) => Some(
            PlannedSwap {
                game: swap.game,
                installation: swap.installation,
                target_path: swap.target_path,
                expected_sha256: installed.sha256,
                source_path: backup.content_path,
                source_sha256: backup.sha256,
                comparison: mirrored(swap.comparison),
            },
        ),
        _ => None,
    }
}

/// The swaps that take the successful swaps of a plan back, in their order.
pub open spec fn undo_swaps(swaps: Seq<PlannedSwap>, results: Seq<SwapResult>) -> Seq<PlannedSwap>
    decreases swaps.len(),
{
    if swaps.len() == 0 || results.len() == 0 {
        Seq::empty()
    } else {
        let before = undo_swaps(swaps.drop_last(), results.drop_last());
        match undo_of(swaps.last(), results.last()) {
            Some(swap) => before.push(swap),
            None => before,
        }
    }
}

fn plan_undo(swaps: &Vec<PlannedSwap>, results: &Vec<SwapResult>) -> (undo: Vec<PlannedSwap>)
    requires
        swaps.len() == results.len(),
    ensures
        undo@ == undo_swaps(swaps@, results@),
{
    let mut undo: Vec<PlannedSwap> = Vec::new();
    let mut at: usize = 0;
    while at < swaps.len()
        invariant
            at <= swaps.len(),
            swaps.len() == results.len(),
            undo@ == undo_swaps(swaps@.take(at as int), results@.take(at as int)),
        decreases swaps.len() - at,
    {
        proof {
            assert(swaps@.take(at + 1).drop_last() =~= swaps@.take(at as int));
            assert(results@.take(at + 1).drop_last() =~= results@.take(at as int));
        }
        let swap = &swaps[at];
        match (&results[at].result, &results[at].backup) {
            (Ok(installed), Some(backup)) => {
                let comparison = match swap.comparison {
                    Comparison::Upgrade => Comparison::Downgrade,
                    Comparison::Downgrade => Comparison::Upgrade,
                    other => other,
                };
                undo.push(PlannedSwap {
                    game: swap.game.clone(),
                    installation: swap.installation.clone(),
                    target_path: swap.target_path.clone(),
                    expected_sha256: installed.sha256,
                    source_path: backup.content_path.clone(),
                    source_sha256: backup.sha256,
                    comparison,
                });
            },
            _ => {},
        }
        at += 1;
    }
    proof {
        assert(swaps@.take(at as int) =~= swaps@);
        assert(results@.take(at as int) =~= results@);
    }
    undo
}

/// Undoing a swap that went as planned expects what the swap installed and
/// brings back what it replaced, in the same file of the same game. Undoing the
/// undo is the swap itself again, as far as content goes.
pub proof fn undo_reverses_a_swap(swap: PlannedSwap, told: SwapResult, undone: SwapResult)
    requires
        told.result matches Ok(installed) && installed.sha256 == swap.source_sha256,
        told.backup matches Some(backup) && backup.sha256 == swap.expected_sha256,
        undone.result matches Ok(installed) && installed.sha256 == swap.expected_sha256,
        undone.backup matches Some(backup) && backup.sha256 == swap.source_sha256,
    ensures
        undo_of(swap, told) matches Some(undo) && undo.game == swap.game && undo.installation
            == swap.installation && undo.target_path == swap.target_path && undo.expected_sha256
            == swap.source_sha256 && undo.source_sha256 == swap.expected_sha256 && (undo_of(
            undo,
            undone,
        ) matches Some(again) && again.target_path == swap.target_path && again.expected_sha256
            == swap.expected_sha256 && again.source_sha256 == swap.source_sha256
            && again.comparison == swap.comparison),
{
}

/// Only swaps that succeeded and have a backup can be undone; each of them is.
pub proof fn undo_covers_what_changed(swaps: Seq<PlannedSwap>, results: Seq<SwapResult>)
    requires
        swaps.len() == results.len(),
        forall|i: int|
            0 <= i < results.len() ==> ((#[trigger] results[i]).result is Ok
                <==> results[i].backup is Some),
    ensures
        undo_swaps(swaps, results).len() == count_changed(results),
    decreases swaps.len(),
{
    if swaps.len() > 0 {
        let shorter = results.drop_last();
        assert forall|i: int| 0 <= i < shorter.len() implies ((#[trigger] shorter[i]).result is Ok
            <==> shorter[i].backup is Some) by {
            assert(shorter[i] == results[i]);
        }
        undo_covers_what_changed(swaps.drop_last(), shorter);
        assert(results[results.len() - 1] == results.last());
    }
}

/// The results of a plan, after the helper had its turn with those that were
/// denied.
pub open spec fn final_results(
    direct: Seq<SwapResult>,
    elevated: Option<Result<BatchResult, WorkerError>>,
) -> Seq<SwapResult> {
    match elevated {
        Some(Ok(batch)) => merged_results(direct, batch.swaps@),
        _ => direct,
    }
}

/// Whether `report` is what is reported of a plan.
pub open spec fn is_report(
    plan: OperationPlan,
    release: Seq<char>,
    direct: BatchResult,
    elevated: Option<Result<BatchResult, WorkerError>>,
    undo_nonce: Seq<char>,
    report: UpgradeReport,
) -> bool {
    let results = final_results(direct.swaps@, elevated);
    let undo = undo_swaps(plan.swaps@, results);
    &&& report.release@ == release
    &&& report.changed == count_changed(results)
    &&& report.failed == results.len() - count_changed(results)
    &&& match elevated {
        Some(Err(error)) => report.warning matches Some(text) && text@ == worker_error_text(error),
        _ => report.warning is None,
    }
    &&& report.can_undo == (undo.len() > 0)
    &&& report.undo_plan is Some <==> undo.len() > 0
    &&& report.undo_plan matches Some(back) ==> back.nonce@ == undo_nonce && back.swaps@ == undo
}

/// Reports what became of a plan. `direct` are the results of the first
/// attempt; `elevated` is what the helper made of those that were denied, if it
/// was asked.
pub fn execute_game_plan(
    plan: &OperationPlan,
    release: &str,
    direct: BatchResult,
    elevated: Option<Result<BatchResult, WorkerError>>,
    undo_nonce: &str,
) -> (report: UpgradeReport)
    requires
        direct.swaps.len() == plan.swaps.len(),
    ensures
        is_report(*plan, release@, direct, elevated, undo_nonce@, report),
{
    let mut warning: Option<String> = None;
    let results = match &elevated {
        Some(Ok(batch)) => merge_results(direct.swaps, &batch.swaps),
        Some(Err(error)) => {
            warning = Some(error.to_text());
            direct.swaps
        },
        None => direct.swaps,
    };
    let changed = changed_swaps(&results);
    let swaps = plan_undo(&plan.swaps, &results);
    let can_undo = swaps.len() > 0;
    let undo_plan = if can_undo {
        Some(OperationPlan { nonce: undo_nonce.to_owned(), swaps })
    } else {
        None
    };
    UpgradeReport {
        changed,
        failed: results.len() - changed,
        release: release.to_owned(),
        can_undo,
        warning,
        undo_plan,
    }
}

/// Reports what became of an undo. It cannot be undone itself.
pub fn undo_report(result: &BatchResult) -> (report: UpgradeReport)
    ensures
        report.changed == count_changed(result.swaps@),
        report.failed == result.swaps.len() - count_changed(result.swaps@),
        report.release@ == "Undo"@,
        !report.can_undo,
        report.warning is None,
        report.undo_plan is None,
{
    let changed = changed_swaps(&result.swaps);
    UpgradeReport {
        changed,
        failed: result.swaps.len() - changed,
        release: "Undo".to_owned(),
        can_undo: false,
        warning: None,
        undo_plan: None,
    }
}

/// Whether a character may stand in the name of a cached file.
pub open spec fn is_component_char(character: char) -> bool {
    is_nonce_char(character) || character == '.'
}

/// Whether a release identifier can name a file in the cache.
pub open spec fn is_safe_component(value: Seq<char>) -> bool {
    1 <= value.len() <= 128 && forall|i: int|
        0 <= i < value.len() ==> is_component_char(#[trigger] value[i])
}

/// Checks that a release identifier can name a file in the cache.
pub fn safe_component(value: &str) -> (checked: Result<(), WorkerError>)
    ensures
        checked is Ok <==> is_safe_component(value@),
        checked matches Err(error) ==> (error matches WorkerError::State(message) && message@
            == "release tag is not a safe cache component"@),
{
    let chars = chars_of(value);
    let mut safe = chars.len() >= 1 && chars.len() <= 128;
    let mut at: usize = 0;
    while at < chars.len() && safe
        invariant
            at <= chars.len(),
            chars@ == value@,
            safe ==> 1 <= value@.len() <= 128,
            safe ==> forall|i: int| 0 <= i < at ==> is_component_char(#[trigger] value@[i]),
            !safe ==> !is_safe_component(value@),
        decreases chars.len() - at,
    {
        let character = chars[at];
        let allowed = '0' <= character && character <= '9' || 'a' <= character && character <= 'z'
            || 'A' <= character && character <= 'Z' || character == '-' || character == '_'
            || character == '.';
        if !allowed {
            proof {
                assert(!is_component_char(value@[at as int]));
            }
            safe = false;
        }
        at += 1;
    }
    if safe {
        Ok(())
    } else {
        Err(WorkerError::State("release tag is not a safe cache component".to_owned()))
    }
}

/// How the nonce of an operation is made from the time and the process.
pub open spec fn nonce_text(nanos: u128, process: u32) -> Seq<char> {
    padded_hex(nanos as nat, 32) + "-"@ + padded_hex(process as nat, 8)
}

/// The nonce of an operation.
pub fn operation_nonce(nanos: u128, process: u32) -> (nonce: String)
    ensures
        nonce@ == nonce_text(nanos, process),
        is_nonce(nonce@),
{
    let mut nonce = String::new();
    push_hex(&mut nonce, nanos, 32);
    proof {
        assert(Seq::<char>::empty() + padded_hex(nanos as nat, 32) =~= padded_hex(
            nanos as nat,
            32,
        ));
    }
    nonce.append("-");
    push_hex(&mut nonce, process as u128, 8);
    proof {
        nonces_are_valid(nanos, process);
    }
    nonce
}

/// Every nonce that this program makes is one that its helper accepts.
pub proof fn nonces_are_valid(nanos: u128, process: u32)
    ensures
        is_nonce(nonce_text(nanos, process)),
{
    padded_hex_digits(nanos as nat, 32);
    padded_hex_digits(process as nat, 8);
    reveal_strlit("-");
    let first = padded_hex(nanos as nat, 32);
    let last = padded_hex(process as nat, 8);
    let nonce = nonce_text(nanos, process);
    assert forall|i: int| 0 <= i < nonce.len() implies is_nonce_char(#[trigger] nonce[i]) by {
        if i < 32 {
            assert(nonce[i] == first[i]);
        } else if i == 32 {
            assert(nonce[i] == '-');
        } else {
            assert(nonce[i] == last[i - 33]);
        }
    }
}

/// The plan by which the helper carries out `swaps`, and which it accepts as
/// far as its own paths go.
pub fn file_swap_plan(
    game: &GameId,
    root: &FilePath,
    swaps: Vec<PlannedSwap>,
    nonce: String,
    results: &FilePath,
) -> (plan: ElevatedFilePlan)
    ensures
        plan.game_id == *game,
        plan.game_root == *root,
        plan.operation.nonce == nonce,
        plan.operation.swaps == swaps,
        plan.nonce == nonce,
        plan.result_path@ == result_of(results@, nonce@),
{
    let path = result_path(results, &nonce);
    ElevatedFilePlan {
        game_id: game.clone(),
        game_root: root.clone(),
        operation: OperationPlan { nonce: nonce.clone(), swaps },
        nonce,
        result_path: path,
    }
}

/// The plan by which the helper changes the indicator.
pub fn indicator_plan(request: IndicatorRequest, nonce: String, results: &FilePath) -> (plan:
    ToolChangePlan)
    ensures
        plan.tool_id@ == DLSS_INDICATOR_TOOL_ID@,
        plan.desired == request.desired,
        plan.restore_point == request.restore_point,
        plan.expected_current_hash == request.expected_current_hash,
        plan.nonce == nonce,
        plan.result_path@ == result_of(results@, nonce@),
        plan.allow_stale_restore == request.allow_stale_restore,
{
    let path = result_path(results, &nonce);
    ToolChangePlan {
        tool_id: SystemToolId::new(DLSS_INDICATOR_TOOL_ID),
        desired: request.desired,
        restore_point: request.restore_point,
        expected_current_hash: request.expected_current_hash,
        nonce,
        result_path: path,
        allow_stale_restore: request.allow_stale_restore,
    }
}

/// What the helper's answer comes to. `read` is what was read from its result
/// file: nothing readable, its refusal, or its result.
pub fn helper_outcome<T>(read: Result<Result<T, String>, CoreError>) -> (outcome: Result<
    T,
    WorkerError,
>)
    ensures
        match read {
            Ok(Ok(result)) => outcome == Ok::<T, WorkerError>(result),
            Ok(Err(refusal)) => outcome matches Err(WorkerError::Elevation(message)) && message@
                == "the elevated helper rejected the plan: "@ + refusal@,
            Err(error) => outcome matches Err(WorkerError::Elevation(message)) && message@
                == "the elevated helper did not report a result: "@ + error_text(error),
        },
{
    match read {
        Ok(Ok(result)) => Ok(result),
        Ok(Err(refusal)) => Err(
            WorkerError::Elevation(join_two("the elevated helper rejected the plan: ", &refusal)),
        ),
        Err(error) => {
            let reason = error.to_text();
            Err(
                WorkerError::Elevation(
                    join_two("the elevated helper did not report a result: ", &reason),
                ),
            )
        },
    }
}

/// Each swap that changed a file and left a backup is taken back, in the order
/// of the plan, and no other: the file of that swap gets the backup's stored
/// copy, provided that it still holds what the swap installed.
pub proof fn undo_takes_back_each_change(swaps: Seq<PlannedSwap>, results: Seq<SwapResult>) -> (
    undone: Seq<int>)
    requires
        swaps.len() == results.len(),
    ensures
        picks(
            undone,
            results.len() as int,
            |i: int| results[i].result is Ok && results[i].backup is Some,
        ),
        undo_swaps(swaps, results).len() == undone.len(),
        forall|k: int|
            #![trigger undo_swaps(swaps, results)[k]]
            0 <= k < undone.len() ==> {
                let undo = undo_swaps(swaps, results)[k];
                let swap = swaps[undone[k]];
                let installed = results[undone[k]].result->Ok_0;
                let backup = results[undone[k]].backup->0;
                &&& undo.game == swap.game
                &&& undo.installation == swap.installation
                &&& undo.target_path == swap.target_path
                &&& undo.expected_sha256 == installed.sha256
                &&& undo.source_path == backup.content_path
                &&& undo.source_sha256 == backup.sha256
                &&& swap.comparison == Comparison::Upgrade ==> undo.comparison
                    == Comparison::Downgrade
                &&& swap.comparison == Comparison::Downgrade ==> undo.comparison
                    == Comparison::Upgrade
                &&& swap.comparison != Comparison::Upgrade && swap.comparison
                    != Comparison::Downgrade ==> undo.comparison == swap.comparison
            },
    decreases swaps.len(),
{
    let here = |i: int| results[i].result is Ok && results[i].backup is Some;
    if swaps.len() == 0 {
        picks_nothing(here);
        Seq::empty()
    } else {
        let shorter = results.drop_last();
        let before = undo_takes_back_each_change(swaps.drop_last(), shorter);
        picks_grow(
            before,
            shorter.len() as int,
            |i: int| shorter[i].result is Ok && shorter[i].backup is Some,
            here,
        )
    }
}

/// The helper is asked for exactly those swaps of a plan that were denied, in
/// their order.
pub proof fn each_denied_swap_is_retried(swaps: Seq<PlannedSwap>, results: Seq<SwapResult>) -> (
    denied: Seq<int>)
    requires
        swaps.len() == results.len(),
    ensures
        picks(denied, results.len() as int, |i: int| results[i].denied),
        denied_of(swaps, results).len() == denied.len(),
        forall|k: int|
            0 <= k < denied.len() ==> #[trigger] denied_of(swaps, results)[k] == swaps[denied[k]],
    decreases swaps.len(),
{
    let here = |i: int| results[i].denied;
    if swaps.len() == 0 {
        picks_nothing(here);
        Seq::empty()
    } else {
        let shorter = results.drop_last();
        let before = each_denied_swap_is_retried(swaps.drop_last(), shorter);
        picks_grow(before, shorter.len() as int, |i: int| shorter[i].denied, here)
    }
}

/// A swap counts as changed exactly where its result is a success.
pub proof fn each_success_counts(results: Seq<SwapResult>) -> (sorted: (Seq<int>, Seq<int>))
    ensures
        picks(sorted.0, results.len() as int, |i: int| results[i].result is Ok),
        picks(sorted.1, results.len() as int, |i: int| results[i].result is Err),
        count_changed(results) == sorted.0.len(),
        results.len() - count_changed(results) == sorted.1.len(),
    decreases results.len(),
{
    let good = |i: int| results[i].result is Ok;
    let bad = |i: int| results[i].result is Err;
    if results.len() == 0 {
        picks_nothing(good);
        picks_nothing(bad);
        (Seq::empty(), Seq::empty())
    } else {
        let shorter = results.drop_last();
        let before = each_success_counts(shorter);
        (
            picks_grow(before.0, shorter.len() as int, |i: int| shorter[i].result is Ok, good),
            picks_grow(before.1, shorter.len() as int, |i: int| shorter[i].result is Err, bad),
        )
    }
}

proof fn results_are_found(results: Seq<SwapResult>, id: Seq<char>)
    ensures
        0 <= result_position(results, id) <= results.len(),
        result_position(results, id) < results.len() ==> results[result_position(
            results,
            id,
        )].installation@ == id,
        forall|i: int|
            0 <= i < result_position(results, id) ==> (#[trigger] results[i]).installation@ != id,
    decreases results.len(),
{
    if results.len() > 0 {
        let shorter = results.drop_last();
        results_are_found(shorter, id);
        assert forall|i: int| 0 <= i < result_position(results, id) implies (
        #[trigger] results[i]).installation@ != id by {
            if i < shorter.len() {
                assert(shorter[i] == results[i]);
            }
        }
    }
}

/// Where no installation occurs twice in the results of the first attempt, each
/// result is about the installation it was about before. It is the last one
/// that the helper gave of that installation, or, where the helper gave none,
/// that of the first attempt.
pub proof fn helper_results_take_their_place(
    results: Seq<SwapResult>,
    elevated: Seq<SwapResult>,
    at: int,
)
    requires
        0 <= at < results.len(),
        forall|i: int, j: int|
            0 <= i < j < results.len() ==> results[i].installation@ != results[j].installation@,
    ensures
        merged_results(results, elevated).len() == results.len(),
        merged_results(results, elevated)[at].installation@ == results[at].installation@,
        (forall|e: int|
            0 <= e < elevated.len() ==> (#[trigger] elevated[e]).installation@
                != results[at].installation@) ==> merged_results(results, elevated)[at]
            == results[at],
        forall|last: int|
            0 <= last < elevated.len() && (#[trigger] elevated[last]).installation@
                == results[at].installation@ && (forall|e: int|
                last < e < elevated.len() ==> (#[trigger] elevated[e]).installation@
                    != results[at].installation@) ==> merged_results(results, elevated)[at]
                == elevated[last],
    decreases elevated.len(),
{
    if elevated.len() > 0 {
        let shorter = elevated.drop_last();
        let before = merged_results(results, shorter);
        let id = elevated.last().installation@;
        helper_results_take_their_place(results, shorter, at);
        results_are_found(before, id);
        let found = result_position(before, id);
        assert(before.len() == results.len());
        if id == results[at].installation@ {
            if found != at {
                helper_results_take_their_place(results, shorter, found);
            }
            assert(found == at);
        } else {
            assert(found != at);
        }
        assert(elevated[elevated.len() - 1] == elevated.last());
        if forall|e: int|
            0 <= e < elevated.len() ==> (#[trigger] elevated[e]).installation@
                != results[at].installation@ {
            assert forall|e: int| 0 <= e < shorter.len() implies (
            #[trigger] shorter[e]).installation@ != results[at].installation@ by {
                assert(shorter[e] == elevated[e]);
            }
        }
        assert forall|last: int|
            0 <= last < elevated.len() && (#[trigger] elevated[last]).installation@
                == results[at].installation@ && (forall|e: int|
                last < e < elevated.len() ==> (#[trigger] elevated[e]).installation@
                    != results[at].installation@) implies merged_results(results, elevated)[at]
            == elevated[last] by {
            if last < shorter.len() {
                assert(shorter[last] == elevated[last]);
                assert forall|e: int| last < e < shorter.len() implies (
                #[trigger] shorter[e]).installation@ != results[at].installation@ by {
                    assert(shorter[e] == elevated[e]);
                }
            }
        }
    }
}

/// A report counts the swaps that succeeded and those that failed, once the
/// helper had its turn, and carries the swaps that take the former back.
pub proof fn reports_tell_what_changed(
    plan: OperationPlan,
    release: Seq<char>,
    direct: BatchResult,
    elevated: Option<Result<BatchResult, WorkerError>>,
    undo_nonce: Seq<char>,
    report: UpgradeReport,
) -> (sorted: (Seq<int>, Seq<int>))
    requires
        is_report(plan, release, direct, elevated, undo_nonce, report),
    ensures
        ({
            let results = match elevated {
                Some(Ok(batch)) => merged_results(direct.swaps@, batch.swaps@),
                _ => direct.swaps@,
            };
            &&& picks(sorted.0, results.len() as int, |i: int| results[i].result is Ok)
            &&& picks(sorted.1, results.len() as int, |i: int| results[i].result is Err)
            &&& report.changed == sorted.0.len()
            &&& report.failed == sorted.1.len()
            &&& report.can_undo <==> undo_swaps(plan.swaps@, results).len() > 0
            &&& report.can_undo <==> report.undo_plan is Some
            &&& report.undo_plan matches Some(undo) ==> undo.nonce@ == undo_nonce && undo.swaps@
                == undo_swaps(plan.swaps@, results)
        }),
        report.release@ == release,
        elevated matches Some(Err(error)) ==> report.warning is Some && report.warning->0@
            == worker_error_text(error),
        !(elevated matches Some(Err(_))) ==> report.warning is None,
{
    each_success_counts(final_results(direct.swaps@, elevated))
}

/// A name is safe as part of a path where it has one to 128 characters that are
/// letters, digits, hyphens, underscores or dots. No such name holds a
/// separator.
pub proof fn safe_names_hold_no_separator(value: Seq<char>)
    ensures
        is_safe_component(value) <==> 1 <= value.len() <= 128 && forall|i: int|
            0 <= i < value.len() ==> ('0' <= #[trigger] value[i] <= '9' || 'a' <= value[i] <= 'z'
                || 'A' <= value[i] <= 'Z' || value[i] == '-' || value[i] == '_' || value[i] == '.'),
        is_safe_component(value) ==> !value.contains('/') && !value.contains('\\')
            && !value.contains(':'),
{
    if is_safe_component(value) {
        assert forall|i: int| 0 <= i < value.len() implies ('0' <= #[trigger] value[i] <= '9'
            || 'a' <= value[i] <= 'z' || 'A' <= value[i] <= 'Z' || value[i] == '-' || value[i]
            == '_' || value[i] == '.') by {
            assert(is_component_char(value[i]));
        }
    } else if 1 <= value.len() <= 128 {
        let i = choose|i: int| 0 <= i < value.len() && !is_component_char(#[trigger] value[i]);
        assert(!('0' <= value[i] <= '9'));
    }
}

} // verus!
