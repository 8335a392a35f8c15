//! Replacing a file in one step: by a checked copy beside it that takes its
//! place.

use crate::digest::{padded_hex, push_hex, same_hash};
use crate::files::{FileAction, FileReply};
use crate::paths::{with_extension, FilePath};
use crate::text::{decimal, push_decimal};
use crate::traits::{refused, CoreError};
use vstd::prelude::*;

verus! {

/// A file that is to be replaced: by `source`, whose digest has to be `sha256`,
/// by way of a copy at `stage`.
#[derive(Debug, PartialEq, Eq)]
pub struct Replacement {
    pub target: FilePath,
    pub source: FilePath,
    pub sha256: [u8; 32],
    pub stage: FilePath,
}

/// How far a replacement has come.
#[derive(Debug, PartialEq, Eq)]
pub enum ReplaceStage {
    HashingSource,
    Copying,
    HashingCopy,
    Moving,
    /// Whatever came of it, a copy that is still there is deleted.
    LookingForCopy { outcome: Result<(), CoreError> },
    Discarding { outcome: Result<(), CoreError> },
    Ended { outcome: Result<(), CoreError> },
}

/// The extension of the copy that process number `process` makes at the time
/// `nanos`.
pub open spec fn stage_extension(process: u32, nanos: u128) -> Seq<char> {
    "dll.dlss-stage-"@ + decimal(process as nat) + "-"@ + padded_hex(nanos as nat, 32)
}

/// Where the copy is made: beside the target, under a name that no other
/// replacement uses.
pub fn stage_path(target: &FilePath, process: u32, nanos: u128) -> (path: FilePath)
    ensures
        path@ == with_extension(target@, stage_extension(process, nanos)),
{
    let mut extension = "dll.dlss-stage-".to_owned();
    push_decimal(&mut extension, process as u64);
    extension.append("-");
    push_hex(&mut extension, nanos, 32);
    proof {
        assert(extension@ =~= stage_extension(process, nanos));
    }
    target.with_extension(&extension)
}

/// The action that belongs to a stage. To rename the copy puts it in the place
/// of the target.
pub open spec fn replace_asks(replacement: Replacement, stage: ReplaceStage) -> Option<FileAction> {
    match stage {
        ReplaceStage::HashingSource => Some(FileAction::Hash { path: replacement.source }),
        ReplaceStage::Copying => Some(
            FileAction::Duplicate { from: replacement.source, to: replacement.stage },
        ),
        ReplaceStage::HashingCopy => Some(FileAction::Hash { path: replacement.stage }),
        ReplaceStage::Moving => Some(
            FileAction::Rename { from: replacement.stage, to: replacement.target },
        ),
        ReplaceStage::LookingForCopy { outcome: _ } => Some(
            FileAction::Look { path: replacement.stage },
        ),
        ReplaceStage::Discarding { outcome: _ } => Some(
            FileAction::Remove { path: replacement.stage },
        ),
        ReplaceStage::Ended { outcome: _ } => None,
    }
}

/// Whether an outcome is a validation error of the given wording.
pub open spec fn is_refusal(outcome: Result<(), CoreError>, wording: Seq<char>) -> bool {
    outcome matches Err(CoreError::Validation(message)) && message@ == wording
}

/// Whether `next` is the stage that `reply` leads to. A reply that answers some
/// other action changes nothing.
pub open spec fn replace_follows(
    replacement: Replacement,
    stage: ReplaceStage,
    reply: FileReply,
    next: ReplaceStage,
) -> bool {
    match (stage, reply) {
        (ReplaceStage::HashingSource, FileReply::Hashed(result)) => match result {
            Err(error) => next == (ReplaceStage::Ended { outcome: Err(error) }),
            Ok(hash) => if hash == replacement.sha256 {
                next == ReplaceStage::Copying
            } else {
                next matches ReplaceStage::Ended { outcome } && is_refusal(
                    outcome,
                    "cached source hash changed"@,
                )
            },
        },
        (ReplaceStage::Copying, FileReply::Done(result)) => match result {
            Ok(_) => next == ReplaceStage::HashingCopy,
            Err(error) => next == (ReplaceStage::LookingForCopy { outcome: Err(error) }),
        },
        (ReplaceStage::HashingCopy, FileReply::Hashed(result)) => match result {
            Err(error) => next == (ReplaceStage::LookingForCopy { outcome: Err(error) }),
            Ok(hash) => if hash == replacement.sha256 {
                next == ReplaceStage::Moving
            } else {
                next matches ReplaceStage::LookingForCopy { outcome } && is_refusal(
                    outcome,
                    "staged source hash mismatch"@,
                )
            },
        },
        (ReplaceStage::Moving, FileReply::Done(result)) => next == (ReplaceStage::LookingForCopy {
            outcome: result,
        }),
        (ReplaceStage::LookingForCopy { outcome }, FileReply::Found(found)) => next == if found {
            ReplaceStage::Discarding { outcome }
        } else {
            ReplaceStage::Ended { outcome }
        },
        (ReplaceStage::Discarding { outcome }, FileReply::Done(_)) => next == (ReplaceStage::Ended {
            outcome,
        }),
        _ => next == stage,
    }
}

impl Replacement {
    /// What has to be done next.
    pub fn action(&self, stage: &ReplaceStage) -> (action: Option<FileAction>)
        ensures
            action == replace_asks(*self, *stage),
    {
        match stage {
            ReplaceStage::HashingSource => Some(FileAction::Hash { path: self.source.clone() }),
            ReplaceStage::Copying => Some(
                FileAction::Duplicate { from: self.source.clone(), to: self.stage.clone() },
            ),
            ReplaceStage::HashingCopy => Some(FileAction::Hash { path: self.stage.clone() }),
            ReplaceStage::Moving => Some(
                FileAction::Rename { from: self.stage.clone(), to: self.target.clone() },
            ),
            ReplaceStage::LookingForCopy { outcome: _ } => Some(
                FileAction::Look { path: self.stage.clone() },
            ),
            ReplaceStage::Discarding { outcome: _ } => Some(
                FileAction::Remove { path: self.stage.clone() },
            ),
            ReplaceStage::Ended { outcome: _ } => None,
        }
    }

    /// The stage that `reply` leads to.
    pub fn replace(&self, stage: ReplaceStage, reply: FileReply) -> (next: ReplaceStage)
        ensures
            replace_follows(*self, stage, reply, next),
    {
        match (stage, reply) {
            (ReplaceStage::HashingSource, FileReply::Hashed(result)) => match result {
                Err(error) => ReplaceStage::Ended { outcome: Err(error) },
                Ok(hash) => if same_hash(&hash, &self.sha256) {
                    ReplaceStage::Copying
                } else {
                    ReplaceStage::Ended { outcome: Err(refused("cached source hash changed")) }
                },
            },
            (ReplaceStage::Copying, FileReply::Done(result)) => match result {
                Ok(_) => ReplaceStage::HashingCopy,
                Err(error) => ReplaceStage::LookingForCopy { outcome: Err(error) },
            },
            (ReplaceStage::HashingCopy, FileReply::Hashed(result)) => match result {
                Err(error) => ReplaceStage::LookingForCopy { outcome: Err(error) },
                Ok(hash) => if same_hash(&hash, &self.sha256) {
                    ReplaceStage::Moving
                } else {
                    ReplaceStage::LookingForCopy {
                        outcome: Err(refused("staged source hash mismatch")),
                    }
                },
            },
            (ReplaceStage::Moving, FileReply::Done(result)) => ReplaceStage::LookingForCopy {
                outcome: result,
            },
            (ReplaceStage::LookingForCopy { outcome }, FileReply::Found(found)) => if found {
                ReplaceStage::Discarding { outcome }
            } else {
                ReplaceStage::Ended { outcome }
            },
            (ReplaceStage::Discarding { outcome }, FileReply::Done(_)) => ReplaceStage::Ended {
                outcome,
            },
            (stage, _) => stage,
        }
    }
}

/// Whether `stages` are the stages that a replacement goes through as `replies`
/// come in.
pub open spec fn is_replace_run(
    replacement: Replacement,
    replies: Seq<FileReply>,
    stages: Seq<ReplaceStage>,
) -> bool {
    &&& stages.len() == replies.len() + 1
    &&& stages[0] == ReplaceStage::HashingSource
    &&& forall|i: int|
        0 <= i < replies.len() ==> replace_follows(
            replacement,
            stages[i],
            #[trigger] replies[i],
            stages[i + 1],
        )
}

/// Whether, by reply number `end`, the copy was found to have the digest of the
/// source.
pub open spec fn copy_was_checked(
    replacement: Replacement,
    replies: Seq<FileReply>,
    stages: Seq<ReplaceStage>,
    end: int,
) -> bool {
    exists|i: int|
        0 <= i < end && stages[i] == ReplaceStage::HashingCopy && #[trigger] replies[i]
            == FileReply::Hashed(Ok(replacement.sha256))
}

/// The target is touched only after the copy beside it was read again and had
/// the digest of the source, and a replacement succeeds only then.
pub proof fn only_checked_copies_replace(
    replacement: Replacement,
    replies: Seq<FileReply>,
    stages: Seq<ReplaceStage>,
    at: int,
)
    requires
        is_replace_run(replacement, replies, stages),
        0 <= at < stages.len(),
    ensures
        stages[at] == ReplaceStage::Moving ==> copy_was_checked(replacement, replies, stages, at),
        stages[at] == (ReplaceStage::LookingForCopy { outcome: Ok(()) }) ==> copy_was_checked(
            replacement,
            replies,
            stages,
            at,
        ),
        stages[at] == (ReplaceStage::Discarding { outcome: Ok(()) }) ==> copy_was_checked(
            replacement,
            replies,
            stages,
            at,
        ),
        stages[at] == (ReplaceStage::Ended { outcome: Ok(()) }) ==> copy_was_checked(
            replacement,
            replies,
            stages,
            at,
        ),
    decreases at,
{
    if at > 0 {
        only_checked_copies_replace(replacement, replies, stages, at - 1);
        assert(replace_follows(replacement, stages[at - 1], replies[at - 1], stages[at]));
        if copy_was_checked(replacement, replies, stages, at - 1) {
            let i = choose|i: int|
                0 <= i < at - 1 && stages[i] == ReplaceStage::HashingCopy && #[trigger] replies[i]
                    == FileReply::Hashed(Ok(replacement.sha256));
            assert(0 <= i < at && replies[i] == FileReply::Hashed(Ok(replacement.sha256)));
        }
    }
}

/// A replacement reads its source, writes only the copy beside the target, and
/// changes the target in the one step that puts the copy in its place.
pub proof fn replacements_write_only_the_copy(replacement: Replacement, stage: ReplaceStage)
    ensures
        match replace_asks(replacement, stage) {
            Some(FileAction::Hash { path }) => if stage == ReplaceStage::HashingSource {
                path == replacement.source
            } else {
                stage == ReplaceStage::HashingCopy && path == replacement.stage
            },
            Some(FileAction::Duplicate { from, to }) => from == replacement.source && to
                == replacement.stage,
            Some(FileAction::Rename { from, to }) => from == replacement.stage && to
                == replacement.target && stage == ReplaceStage::Moving,
            Some(FileAction::Look { path }) => path == replacement.stage,
            Some(FileAction::Remove { path }) => path == replacement.stage,
            Some(_) => false,
            None => stage is Ended,
        },
{
}

/// A replacement of which every step goes well succeeds.
pub proof fn a_smooth_replacement_succeeds(replacement: Replacement, stages: Seq<ReplaceStage>)
    requires
        is_replace_run(
            replacement,
            seq![
                FileReply::Hashed(Ok(replacement.sha256)),
                FileReply::Done(Ok(())),
                FileReply::Hashed(Ok(replacement.sha256)),
                FileReply::Done(Ok(())),
                FileReply::Found(false),
            ],
            stages,
        ),
    ensures
        stages.last() == (ReplaceStage::Ended { outcome: Ok(()) }),
{
    let replies = seq![
        FileReply::Hashed(Ok(replacement.sha256)),
        FileReply::Done(Ok(())),
        FileReply::Hashed(Ok(replacement.sha256)),
        FileReply::Done(Ok(())),
        FileReply::Found(false),
    ];
    assert(replace_follows(replacement, stages[0], replies[0], stages[1]));
    assert(replace_follows(replacement, stages[1], replies[1], stages[2]));
    assert(replace_follows(replacement, stages[2], replies[2], stages[3]));
    assert(replace_follows(replacement, stages[3], replies[3], stages[4]));
    assert(replace_follows(replacement, stages[4], replies[4], stages[5]));
}

/// A step that fails decides the outcome. Once a copy may be there, it is
/// looked for and deleted, which changes the outcome no more.
pub proof fn failures_decide_a_replacement(
    replacement: Replacement,
    stage: ReplaceStage,
    reply: FileReply,
    next: ReplaceStage,
    error: CoreError,
)
    requires
        replace_follows(replacement, stage, reply, next),
    ensures
        stage == ReplaceStage::HashingSource && reply == FileReply::Hashed(Err(error)) ==> next == (
        ReplaceStage::Ended { outcome: Err(error) }),
        stage == ReplaceStage::HashingSource && (reply matches FileReply::Hashed(Ok(found)) && found
            != replacement.sha256) ==> (next matches ReplaceStage::Ended {
            outcome: Err(CoreError::Validation(message)),
        } && message@ == "cached source hash changed"@),
        stage == ReplaceStage::Copying && reply == FileReply::Done(Err(error)) ==> next == (
        ReplaceStage::LookingForCopy { outcome: Err(error) }),
        stage == ReplaceStage::HashingCopy && reply == FileReply::Hashed(Err(error)) ==> next == (
        ReplaceStage::LookingForCopy { outcome: Err(error) }),
        stage == ReplaceStage::HashingCopy && (reply matches FileReply::Hashed(Ok(found)) && found
            != replacement.sha256) ==> (next matches ReplaceStage::LookingForCopy {
            outcome: Err(CoreError::Validation(message)),
        } && message@ == "staged source hash mismatch"@),
        stage == ReplaceStage::Moving && reply == FileReply::Done(Err(error)) ==> next == (
        ReplaceStage::LookingForCopy { outcome: Err(error) }),
        stage matches ReplaceStage::LookingForCopy { outcome } ==> reply == FileReply::Found(true)
            ==> next == (ReplaceStage::Discarding { outcome }),
        stage matches ReplaceStage::LookingForCopy { outcome } ==> reply == FileReply::Found(false)
            ==> next == (ReplaceStage::Ended { outcome }),
        stage matches ReplaceStage::Discarding { outcome } ==> reply is Done ==> next == (
        ReplaceStage::Ended { outcome }),
        stage is Ended ==> next == stage,
{
}

} // verus!
