//! Carrying out one planned swap, step by step.
//!
//! A swap is a small state machine. [`action`] says what has to be done next,
//! the program does it and hands the reply to [`advance`].

use crate::digest::same_hash;
use crate::model::{BackupRecord, BatchResult, DllMetadata, OperationPlan, PlannedSwap, SwapResult};
use crate::paths::FilePath;
use crate::text::join_two;
use crate::traits::{error_text, lacks_privileges, refused, CoreError};
use vstd::prelude::*;

verus! {

/// What has to be done next.
#[derive(Debug, PartialEq, Eq)]
pub enum SwapAction {
    /// Read the metadata of a DLL.
    Inspect { path: FilePath },
    /// Compute the digest of a file.
    Hash { path: FilePath },
    /// Back up a file whose digest has to be `expected_sha256`.
    BackUp { path: FilePath, expected_sha256: [u8; 32] },
    /// Replace `target` by `source`, whose digest has to be `sha256`.
    Replace { target: FilePath, source: FilePath, sha256: [u8; 32] },
    /// Nothing: the swap has ended.
    Rest,
}

/// What came of an action.
#[derive(Debug, PartialEq, Eq)]
pub enum SwapReply {
    Inspected(Result<DllMetadata, CoreError>),
    Hashed(Result<[u8; 32], CoreError>),
    BackedUp(Result<BackupRecord, CoreError>),
    Replaced(Result<(), CoreError>),
}

/// How far a swap has come.
#[derive(Debug, PartialEq, Eq)]
pub enum SwapStage {
    Inspecting,
    HashingSource,
    BackingUp,
    Replacing { backup: BackupRecord },
    Verifying { backup: BackupRecord },
    RollingBack { backup: BackupRecord },
    Ended { outcome: Result<(DllMetadata, BackupRecord), CoreError> },
}

/// The action that belongs to a stage.
pub open spec fn stage_action(swap: PlannedSwap, stage: SwapStage) -> SwapAction {
    match stage {
        SwapStage::Inspecting => SwapAction::Inspect { path: swap.target_path },
        SwapStage::HashingSource => SwapAction::Hash { path: swap.source_path },
        SwapStage::BackingUp => SwapAction::BackUp {
            path: swap.target_path,
            expected_sha256: swap.expected_sha256,
        },
        SwapStage::Replacing { backup: _ } => SwapAction::Replace {
            target: swap.target_path,
            source: swap.source_path,
            sha256: swap.source_sha256,
        },
        SwapStage::Verifying { backup: _ } => SwapAction::Inspect { path: swap.target_path },
        SwapStage::RollingBack { backup } => SwapAction::Replace {
            target: swap.target_path,
            source: backup.content_path,
            sha256: backup.sha256,
        },
        SwapStage::Ended { outcome: _ } => SwapAction::Rest,
    }
}

/// Whether a swap has ended with a validation error of the given wording.
pub open spec fn ended_refused(stage: SwapStage, wording: Seq<char>) -> bool {
    stage matches SwapStage::Ended { outcome: Err(CoreError::Validation(message)) } && message@
        == wording
}

/// Whether `next` is the stage that `reply` leads to from `stage`. A reply that
/// answers some other action changes nothing.
pub open spec fn stage_follows(
    swap: PlannedSwap,
    stage: SwapStage,
    reply: SwapReply,
    next: SwapStage,
) -> bool {
    match (stage, reply) {
        (SwapStage::Inspecting, SwapReply::Inspected(result)) => match result {
            Err(error) => next == (SwapStage::Ended { outcome: Err(error) }),
            Ok(current) => if current.sha256 == swap.expected_sha256 {
                next == SwapStage::HashingSource
            } else {
                next == (SwapStage::Ended { outcome: Err(CoreError::StalePlan) })
            },
        },
        (SwapStage::HashingSource, SwapReply::Hashed(result)) => match result {
            Err(error) => next == (SwapStage::Ended { outcome: Err(error) }),
            Ok(sha256) => if sha256 == swap.source_sha256 {
                next == SwapStage::BackingUp
            } else {
                ended_refused(next, "cached source hash changed"@)
            },
        },
        (SwapStage::BackingUp, SwapReply::BackedUp(result)) => match result {
            Err(error) => next == (SwapStage::Ended { outcome: Err(error) }),
            Ok(backup) => next == (SwapStage::Replacing { backup }),
        },
        (SwapStage::Replacing { backup }, SwapReply::Replaced(result)) => match result {
            Err(error) => next == (SwapStage::Ended { outcome: Err(error) }),
            Ok(_) => next == (SwapStage::Verifying { backup }),
        },
        (SwapStage::Verifying { backup }, SwapReply::Inspected(result)) => match result {
            Err(error) => next == (SwapStage::Ended { outcome: Err(error) }),
            Ok(installed) => if installed.sha256 == swap.source_sha256 {
                next == (SwapStage::Ended { outcome: Ok((installed, backup)) })
            } else {
                next == (SwapStage::RollingBack { backup })
            },
        },
        (SwapStage::RollingBack { backup: _ }, SwapReply::Replaced(result)) => match result {
            Err(error) => ended_refused(
                next,
                "validation failed: replacement verification hash mismatch; backup rollback failed: "@
                    + error_text(error),
            ),
            Ok(_) => ended_refused(next, "replacement verification hash mismatch"@),
        },
        _ => next == stage,
    }
}

/// The action that belongs to a stage.
pub fn action(swap: &PlannedSwap, stage: &SwapStage) -> (next: SwapAction)
    ensures
        next == stage_action(*swap, *stage),
{
    match stage {
        SwapStage::Inspecting => SwapAction::Inspect { path: swap.target_path.clone() },
        SwapStage::HashingSource => SwapAction::Hash { path: swap.source_path.clone() },
        SwapStage::BackingUp => SwapAction::BackUp {
            path: swap.target_path.clone(),
            expected_sha256: swap.expected_sha256,
        },
        SwapStage::Replacing { backup: _ } => SwapAction::Replace {
            target: swap.target_path.clone(),
            source: swap.source_path.clone(),
            sha256: swap.source_sha256,
        },
        SwapStage::Verifying { backup: _ } => SwapAction::Inspect {
            path: swap.target_path.clone(),
        },
        SwapStage::RollingBack { backup } => SwapAction::Replace {
            target: swap.target_path.clone(),
            source: backup.content_path.clone(),
            sha256: backup.sha256,
        },
        SwapStage::Ended { outcome: _ } => SwapAction::Rest,
    }
}

fn end_refused(wording: &str) -> (stage: SwapStage)
    ensures
        ended_refused(stage, wording@),
{
    SwapStage::Ended { outcome: Err(refused(wording)) }
}

/// The stage that `reply` leads to.
pub fn advance(swap: &PlannedSwap, stage: SwapStage, reply: SwapReply) -> (next: SwapStage)
    ensures
        stage_follows(*swap, stage, reply, next),
{
    match (stage, reply) {
        (SwapStage::Inspecting, SwapReply::Inspected(result)) => match result {
            Err(error) => SwapStage::Ended { outcome: Err(error) },
            Ok(current) => if same_hash(&current.sha256, &swap.expected_sha256) {
                SwapStage::HashingSource
            } else {
                SwapStage::Ended { outcome: Err(CoreError::StalePlan) }
            },
        },
        (SwapStage::HashingSource, SwapReply::Hashed(result)) => match result {
            Err(error) => SwapStage::Ended { outcome: Err(error) },
            Ok(sha256) => if same_hash(&sha256, &swap.source_sha256) {
                SwapStage::BackingUp
            } else {
                end_refused("cached source hash changed")
            },
        },
        (SwapStage::BackingUp, SwapReply::BackedUp(result)) => match result {
            Err(error) => SwapStage::Ended { outcome: Err(error) },
            Ok(backup) => SwapStage::Replacing { backup },
        },
        (SwapStage::Replacing { backup }, SwapReply::Replaced(result)) => match result {
            Err(error) => SwapStage::Ended { outcome: Err(error) },
            Ok(_) => SwapStage::Verifying { backup },
        },
        (SwapStage::Verifying { backup }, SwapReply::Inspected(result)) => match result {
            Err(error) => SwapStage::Ended { outcome: Err(error) },
            Ok(installed) => if same_hash(&installed.sha256, &swap.source_sha256) {
                SwapStage::Ended { outcome: Ok((installed, backup)) }
            } else {
                SwapStage::RollingBack { backup }
            },
        },
        (SwapStage::RollingBack { backup: _ }, SwapReply::Replaced(result)) => match result {
            Err(error) => {
                let reason = error.to_text();
                SwapStage::Ended {
                    outcome: Err(
                        CoreError::Validation(
                            join_two(
                                "validation failed: replacement verification hash mismatch; backup rollback failed: ",
                                &reason,
                            ),
                        ),
                    ),
                }
            },
            Ok(_) => end_refused("replacement verification hash mismatch"),
        },
        (stage, _) => stage,
    }
}

/// Whether `stages` are the stages that a swap goes through as `replies` come
/// in.
pub open spec fn is_run(
    swap: PlannedSwap,
    replies: Seq<SwapReply>,
    stages: Seq<SwapStage>,
) -> bool {
    &&& stages.len() == replies.len() + 1
    &&& stages[0] == SwapStage::Inspecting
    &&& forall|i: int|
        0 <= i < replies.len() ==> stage_follows(
            swap,
            stages[i],
            #[trigger] replies[i],
            stages[i + 1],
        )
}

/// Whether the target was found to have the expected digest.
pub open spec fn target_was_fresh(swap: PlannedSwap, replies: Seq<SwapReply>) -> bool {
    exists|i: int|
        0 <= i < replies.len() && (#[trigger] replies[i] matches SwapReply::Inspected(Ok(current))
            && current.sha256 == swap.expected_sha256)
}

/// Whether the source was found to have its digest.
pub open spec fn source_was_checked(swap: PlannedSwap, replies: Seq<SwapReply>) -> bool {
    exists|i: int|
        0 <= i < replies.len() && #[trigger] replies[i] == SwapReply::Hashed(
            Ok(swap.source_sha256),
        )
}

/// Whether `backup` was made.
pub open spec fn backup_was_made(backup: BackupRecord, replies: Seq<SwapReply>) -> bool {
    exists|i: int|
        0 <= i < replies.len() && #[trigger] replies[i] == SwapReply::BackedUp(Ok(backup))
}

/// Whether a replacement succeeded.
pub open spec fn was_replaced(replies: Seq<SwapReply>) -> bool {
    exists|i: int|
        0 <= i < replies.len() && (#[trigger] replies[i] matches SwapReply::Replaced(Ok(_)))
}

/// What must have come in before a swap can be at `stage`.
pub open spec fn is_earned(swap: PlannedSwap, stage: SwapStage, replies: Seq<SwapReply>) -> bool {
    match stage {
        SwapStage::Inspecting => true,
        SwapStage::HashingSource => target_was_fresh(swap, replies),
        SwapStage::BackingUp => target_was_fresh(swap, replies) && source_was_checked(
            swap,
            replies,
        ),
        SwapStage::Replacing { backup } => {
            &&& target_was_fresh(swap, replies)
            &&& source_was_checked(swap, replies)
            &&& backup_was_made(backup, replies)
        },
        SwapStage::Verifying { backup } | SwapStage::RollingBack { backup } => {
            &&& target_was_fresh(swap, replies)
            &&& source_was_checked(swap, replies)
            &&& backup_was_made(backup, replies)
            &&& was_replaced(replies)
        },
        SwapStage::Ended { outcome } => outcome matches Ok((installed, backup)) ==> {
            &&& target_was_fresh(swap, replies)
            &&& source_was_checked(swap, replies)
            &&& backup_was_made(backup, replies)
            &&& was_replaced(replies)
            &&& installed.sha256 == swap.source_sha256
        },
    }
}

proof fn earned_stays(
    swap: PlannedSwap,
    stage: SwapStage,
    before: Seq<SwapReply>,
    reply: SwapReply,
)
    requires
        is_earned(swap, stage, before),
    ensures
        is_earned(swap, stage, before.push(reply)),
{
    let after = before.push(reply);
    if target_was_fresh(swap, before) {
        let i = choose|i: int|
            0 <= i < before.len() && (#[trigger] before[i] matches SwapReply::Inspected(Ok(current))
                && current.sha256 == swap.expected_sha256);
        assert(after[i] == before[i]);
    }
    if source_was_checked(swap, before) {
        let i = choose|i: int|
            0 <= i < before.len() && #[trigger] before[i] == SwapReply::Hashed(
                Ok(swap.source_sha256),
            );
        assert(after[i] == before[i]);
    }
    if was_replaced(before) {
        let i = choose|i: int|
            0 <= i < before.len() && (#[trigger] before[i] matches SwapReply::Replaced(Ok(_)));
        assert(after[i] == before[i]);
    }
    assert forall|backup: BackupRecord| backup_was_made(backup, before) implies backup_was_made(
        backup,
        after,
    ) by {
        let i = choose|i: int|
            0 <= i < before.len() && #[trigger] before[i] == SwapReply::BackedUp(Ok(backup));
        assert(after[i] == before[i]);
    }
}

/// No file is replaced before the target was found unchanged, the source was
/// found intact and a backup of the target was made; and a swap succeeds only
/// if, after all that and after the replacement, the installed file was read
/// again and had the digest of the source.
pub proof fn every_stage_is_earned(
    swap: PlannedSwap,
    replies: Seq<SwapReply>,
    stages: Seq<SwapStage>,
)
    requires
        is_run(swap, replies, stages),
    ensures
        is_earned(swap, stages.last(), replies),
        stage_action(swap, stages.last()) is Replace ==> {
            &&& target_was_fresh(swap, replies)
            &&& source_was_checked(swap, replies)
            &&& exists|backup: BackupRecord| backup_was_made(backup, replies)
        },
    decreases replies.len(),
{
    if replies.len() > 0 {
        let last = replies.len() - 1;
        let before = replies.drop_last();
        let earlier = stages.drop_last();
        assert forall|i: int| 0 <= i < before.len() implies stage_follows(
            swap,
            earlier[i],
            #[trigger] before[i],
            earlier[i + 1],
        ) by {
            assert(before[i] == replies[i]);
        }
        every_stage_is_earned(swap, before, earlier);
        let reply = replies[last];
        assert(before.push(reply) =~= replies);
        earned_stays(swap, earlier.last(), before, reply);
        assert(stage_follows(swap, stages[last], replies[last], stages[last + 1]));
        assert(earlier.last() == stages[last]);
    }
}

/// A target whose digest is not the expected one is neither backed up nor
/// replaced, whatever else comes in.
pub proof fn stale_targets_are_left_alone(
    swap: PlannedSwap,
    replies: Seq<SwapReply>,
    stages: Seq<SwapStage>,
    at: int,
)
    requires
        is_run(swap, replies, stages),
        replies.len() > 0,
        replies[0] matches SwapReply::Inspected(Ok(current)) && current.sha256
            != swap.expected_sha256,
        1 <= at < stages.len(),
    ensures
        stages[at] == (SwapStage::Ended { outcome: Err(CoreError::StalePlan) }),
        stage_action(swap, stages[at]) == SwapAction::Rest,
    decreases at,
{
    assert(stage_follows(swap, stages[0], replies[0], stages[1]));
    if at > 1 {
        stale_targets_are_left_alone(swap, replies, stages, at - 1);
        assert(stage_follows(swap, stages[at - 1], replies[at - 1], stages[at]));
    }
}

/// A file that does not have the digest of the source after its replacement is
/// put back from the backup, and the swap fails.
pub proof fn failed_verification_rolls_back(
    swap: PlannedSwap,
    backup: BackupRecord,
    installed: DllMetadata,
    next: SwapStage,
    reply: SwapReply,
    end: SwapStage,
)
    requires
        installed.sha256 != swap.source_sha256,
        stage_follows(
            swap,
            SwapStage::Verifying { backup },
            SwapReply::Inspected(Ok(installed)),
            next,
        ),
        stage_follows(swap, next, reply, end),
        reply is Replaced,
    ensures
        stage_action(swap, next) == (SwapAction::Replace {
            target: swap.target_path,
            source: backup.content_path,
            sha256: backup.sha256,
        }),
        end matches SwapStage::Ended { outcome: Err(_) },
{
}

/// What the user is told about one swap.
pub open spec fn is_result_of(
    swap: PlannedSwap,
    outcome: Result<(DllMetadata, BackupRecord), CoreError>,
    told: SwapResult,
) -> bool {
    &&& told.installation == swap.installation
    &&& match outcome {
        Ok((metadata, backup)) => {
            &&& told.result == Ok::<DllMetadata, String>(metadata)
            &&& told.backup == Some(backup)
            &&& !told.denied
        },
        Err(error) => {
            &&& told.result matches Err(message) && message@ == error_text(error)
            &&& told.backup is None
            &&& told.denied == lacks_privileges(error)
        },
    }
}

/// What the user is told about one swap.
pub fn swap_result(
    swap: &PlannedSwap,
    outcome: Result<(DllMetadata, BackupRecord), CoreError>,
) -> (told: SwapResult)
    ensures
        is_result_of(*swap, outcome, told),
{
    match outcome {
        Ok((metadata, backup)) => SwapResult {
            installation: swap.installation.clone(),
            result: Ok(metadata),
            backup: Some(backup),
            denied: false,
        },
        Err(error) => {
            let denied = error.is_permission_denied();
            SwapResult {
                installation: swap.installation.clone(),
                result: Err(error.to_text()),
                backup: None,
                denied,
            }
        },
    }
}

/// The result of a plan whose swaps had the given outcomes, in order. Swaps are
/// independent: the failure of one leaves the others their own outcomes.
pub fn execute_plan(
    plan: &OperationPlan,
    outcomes: Vec<Result<(DllMetadata, BackupRecord), CoreError>>,
) -> (result: BatchResult)
    requires
        outcomes.len() == plan.swaps.len(),
    ensures
        result.swaps.len() == plan.swaps.len(),
        forall|i: int|
            0 <= i < plan.swaps.len() ==> is_result_of(
                plan.swaps@[i],
                outcomes@[i],
                #[trigger] result.swaps@[i],
            ),
{
    let ghost given = outcomes@;
    let mut rest = outcomes;
    let mut swaps: Vec<SwapResult> = Vec::new();
    let mut at: usize = 0;
    while at < plan.swaps.len()
        invariant
            at <= plan.swaps.len(),
            given.len() == plan.swaps.len(),
            rest@ == given.skip(at as int),
            swaps.len() == at,
            forall|i: int|
                0 <= i < at ==> is_result_of(plan.swaps@[i], given[i], #[trigger] swaps@[i]),
        decreases plan.swaps.len() - at,
    {
        let outcome = rest.remove(0);
        proof {
            assert(given.skip(at as int).remove(0) =~= given.skip(at + 1));
        }
        swaps.push(swap_result(&plan.swaps[at], outcome));
        at += 1;
    }
    BatchResult { swaps }
}

/// A swap touches no file but its target: it reads the target and the source,
/// backs the target up, and puts the source or the backup in its place.
pub proof fn swaps_touch_only_their_target(swap: PlannedSwap, stage: SwapStage)
    ensures
        match stage_action(swap, stage) {
            SwapAction::Inspect { path } => path == swap.target_path && (stage
                == SwapStage::Inspecting || stage is Verifying),
            SwapAction::Hash { path } => path == swap.source_path && stage
                == SwapStage::HashingSource,
            SwapAction::BackUp { path, expected_sha256 } => path == swap.target_path
                && expected_sha256 == swap.expected_sha256 && stage == SwapStage::BackingUp,
            SwapAction::Replace { target, source, sha256 } => target == swap.target_path && match stage {
                SwapStage::Replacing { .. } => source == swap.source_path && sha256
                    == swap.source_sha256,
                SwapStage::RollingBack { backup } => source == backup.content_path && sha256
                    == backup.sha256,
                _ => false,
            },
            SwapAction::Rest => stage is Ended,
        },
{
}

/// A swap of which every step goes well succeeds, with what was installed and
/// the backup that was made.
pub proof fn a_smooth_swap_succeeds(
    swap: PlannedSwap,
    current: DllMetadata,
    backup: BackupRecord,
    installed: DllMetadata,
    stages: Seq<SwapStage>,
)
    requires
        current.sha256 == swap.expected_sha256,
        installed.sha256 == swap.source_sha256,
        is_run(
            swap,
            seq![
                SwapReply::Inspected(Ok(current)),
                SwapReply::Hashed(Ok(swap.source_sha256)),
                SwapReply::BackedUp(Ok(backup)),
                SwapReply::Replaced(Ok(())),
                SwapReply::Inspected(Ok(installed)),
            ],
            stages,
        ),
    ensures
        stages.last() == (SwapStage::Ended { outcome: Ok((installed, backup)) }),
{
    let replies = seq![
        SwapReply::Inspected(Ok(current)),
        SwapReply::Hashed(Ok(swap.source_sha256)),
        SwapReply::BackedUp(Ok(backup)),
        SwapReply::Replaced(Ok(())),
        SwapReply::Inspected(Ok(installed)),
    ];
    assert(stage_follows(swap, stages[0], replies[0], stages[1]));
    assert(stage_follows(swap, stages[1], replies[1], stages[2]));
    assert(stage_follows(swap, stages[2], replies[2], stages[3]));
    assert(stage_follows(swap, stages[3], replies[3], stages[4]));
    assert(stage_follows(swap, stages[4], replies[4], stages[5]));
}

/// A step that fails ends the swap with its error; once the file was replaced
/// and could not be put back, with both reasons. A source that changed is told
/// of, and an ended swap stays as it is.
pub proof fn failures_end_a_swap(
    swap: PlannedSwap,
    stage: SwapStage,
    reply: SwapReply,
    next: SwapStage,
    error: CoreError,
)
    requires
        stage_follows(swap, stage, reply, next),
    ensures
        (stage == SwapStage::Inspecting || stage is Verifying) && reply == SwapReply::Inspected(
            Err(error),
        ) ==> next == (SwapStage::Ended { outcome: Err(error) }),
        stage == SwapStage::HashingSource && reply == SwapReply::Hashed(Err(error)) ==> next == (
        SwapStage::Ended { outcome: Err(error) }),
        stage == SwapStage::BackingUp && reply == SwapReply::BackedUp(Err(error)) ==> next == (
        SwapStage::Ended { outcome: Err(error) }),
        stage is Replacing && reply == SwapReply::Replaced(Err(error)) ==> next == (
        SwapStage::Ended { outcome: Err(error) }),
        stage == SwapStage::HashingSource && (reply matches SwapReply::Hashed(Ok(found)) && found
            != swap.source_sha256) ==> (next matches SwapStage::Ended {
            outcome: Err(CoreError::Validation(message)),
        } && message@ == "cached source hash changed"@),
        stage is RollingBack && reply == SwapReply::Replaced(Err(error)) ==> (next
            matches SwapStage::Ended { outcome: Err(CoreError::Validation(message)) } && message@
            == "validation failed: replacement verification hash mismatch; backup rollback failed: "@
            + error_text(error)),
        stage is RollingBack && reply == SwapReply::Replaced(Ok(())) ==> (next
            matches SwapStage::Ended { outcome: Err(CoreError::Validation(message)) } && message@
            == "replacement verification hash mismatch"@),
        stage is Ended ==> next == stage,
{
}

/// The result of a swap is that of its own DLL: what was installed and the
/// backup of a success, and the reason of a failure, which counts as denied
/// only where privileges were lacking.
pub proof fn results_tell_the_outcome(
    swap: PlannedSwap,
    outcome: Result<(DllMetadata, BackupRecord), CoreError>,
    told: SwapResult,
)
    requires
        is_result_of(swap, outcome, told),
    ensures
        told.installation@ == swap.installation@,
        told.result is Ok <==> outcome is Ok,
        told.backup is Some <==> outcome is Ok,
        outcome matches Ok((metadata, backup)) ==> told.result == Ok::<DllMetadata, String>(
            metadata,
        ) && told.backup == Some(backup) && !told.denied,
        outcome matches Err(error) ==> told.result->Err_0@ == error_text(error) && (told.denied
            <==> lacks_privileges(error)),
{
}

} // verus!
