//! Getting a release ready: download, extraction, and the exchange of the old
//! unpacked release for the new one.

use crate::archive::{file_error, is_file_error, CatalogError, ValidatedRelease};
use crate::digest::{padded_hex, push_hex};
use crate::files::{FileAction, FileReply};
use crate::github::GithubError;
use crate::model::{CatalogDll, FileName, ReleaseState};
use crate::paths::{has_name, joined, last_part, parent_of, FilePath, PathStyle};
use crate::text::{chars_of, decimal, decimal_text, join_three, join_two};
use crate::traits::CoreError;
use vstd::prelude::*;

verus! {

/// The directories of a publication.
#[derive(Debug, PartialEq, Eq)]
pub struct PublishPlan {
    /// The directory that the others stand in.
    pub parent: FilePath,
    /// Where the release is used from.
    pub destination: FilePath,
    /// Where the new release was unpacked.
    pub staging: FilePath,
    /// Where the old release waits until the new one is in place.
    pub previous: FilePath,
}

/// The name by which the directories beside `destination` are called. A
/// destination whose name is missing or is not text goes by `release`.
pub open spec fn release_leaf(destination: Seq<char>) -> Seq<char> {
    if has_name(destination) && !last_part(destination).contains('\0') {
        last_part(destination)
    } else {
        "release"@
    }
}

fn is_text(name: &str) -> (text: bool)
    ensures
        text == !name@.contains('\0'),
{
    let chars = chars_of(name);
    let mut at: usize = 0;
    while at < chars.len()
        invariant
            at <= chars.len(),
            chars@ == name@,
            forall|i: int| 0 <= i < at ==> #[trigger] chars@[i] != '\0',
        decreases chars.len() - at,
    {
        if chars[at] == '\0' {
            proof {
                assert(name@.contains(chars@[at as int]));
            }
            return false;
        }
        at += 1;
    }
    true
}

/// The directories for a release that is used from `destination`. `unique`
/// keeps them apart from those of any other publication.
pub fn publish_plan(style: PathStyle, destination: &FilePath, unique: &str) -> (plan: Result<
    PublishPlan,
    CatalogError,
>)
    ensures
        match parent_of(style, destination@) {
            None => plan matches Err(CatalogError::Io { permission_denied, message })
                && !permission_denied && message@ == "release destination has no parent"@,
            Some(parent) => {
                let leaf = release_leaf(destination@);
                &&& plan matches Ok(plan)
                &&& plan.parent@ == parent
                &&& plan.destination == *destination
                &&& plan.staging@ == joined(parent, "."@ + leaf + (".staging-"@ + unique@))
                &&& plan.previous@ == joined(parent, "."@ + leaf + (".previous-"@ + unique@))
            },
        },
{
    let leaf = match destination.file_name() {
        Some(name) => if is_text(&name) {
            name
        } else {
            "release".to_owned()
        },
        None => "release".to_owned(),
    };
    match destination.parent(style) {
        None => Err(
            CatalogError::Io {
                permission_denied: false,
                message: "release destination has no parent".to_owned(),
            },
        ),
        Some(parent) => {
            let staging_end = join_two(".staging-", unique);
            let previous_end = join_two(".previous-", unique);
            let staging = parent.join(&join_three(".", &leaf, &staging_end));
            let previous = parent.join(&join_three(".", &leaf, &previous_end));
            Ok(PublishPlan { parent, destination: destination.clone(), staging, previous })
        },
    }
}

/// What tells one publication from every other: the process, the time, and how
/// many this process began before.
pub open spec fn publication_mark(process: u32, nanos: u128, count: u64) -> Seq<char> {
    decimal(process as nat) + "-"@ + padded_hex(nanos as nat, 32) + "-"@ + padded_hex(
        count as nat,
        16,
    )
}

/// What tells one publication from every other.
pub fn unique_mark(process: u32, nanos: u128, count: u64) -> (mark: String)
    ensures
        mark@ == publication_mark(process, nanos, count),
{
    let mut mark = decimal_text(process as u64);
    mark.append("-");
    push_hex(&mut mark, nanos, 32);
    mark.append("-");
    push_hex(&mut mark, count as u128, 16);
    mark
}

/// How far a publication has come.
#[derive(Debug, PartialEq, Eq)]
pub enum PublishStage {
    LookingUp,
    MovingOldAway,
    MovingIn { replaces: bool },
    RemovingOld,
    /// The old release could not be removed; the new one goes back.
    MovingOut { error: CoreError },
    PuttingBack { error: CoreError },
    Cleaning { error: CoreError },
    Ended { outcome: Result<(), CoreError> },
}

/// What a publication asks for next.
pub open spec fn publish_asks(plan: PublishPlan, stage: PublishStage) -> Option<FileAction> {
    match stage {
        PublishStage::LookingUp => Some(FileAction::Look { path: plan.destination }),
        PublishStage::MovingOldAway => Some(
            FileAction::Rename { from: plan.destination, to: plan.previous },
        ),
        PublishStage::MovingIn { replaces: _ } => Some(
            FileAction::Rename { from: plan.staging, to: plan.destination },
        ),
        PublishStage::RemovingOld => Some(FileAction::RemoveTree { path: plan.previous }),
        PublishStage::MovingOut { error: _ } => Some(
            FileAction::Rename { from: plan.destination, to: plan.staging },
        ),
        PublishStage::PuttingBack { error: _ } => Some(
            FileAction::Rename { from: plan.previous, to: plan.destination },
        ),
        PublishStage::Cleaning { error: _ } => Some(FileAction::RemoveTree { path: plan.staging }),
        PublishStage::Ended { outcome: _ } => None,
    }
}

/// The stage that `reply` leads to. A reply that answers some other action
/// changes nothing.
pub open spec fn publish_next(stage: PublishStage, reply: FileReply) -> PublishStage {
    match (stage, reply) {
        (PublishStage::LookingUp, FileReply::Found(found)) => if found {
            PublishStage::MovingOldAway
        } else {
            PublishStage::MovingIn { replaces: false }
        },
        (PublishStage::MovingOldAway, FileReply::Done(result)) => match result {
            Ok(_) => PublishStage::MovingIn { replaces: true },
            Err(error) => PublishStage::Cleaning { error },
        },
        (PublishStage::MovingIn { replaces }, FileReply::Done(result)) => match result {
            Ok(_) => if replaces {
                PublishStage::RemovingOld
            } else {
                PublishStage::Ended { outcome: Ok(()) }
            },
            Err(error) => if replaces {
                PublishStage::PuttingBack { error }
            } else {
                PublishStage::Cleaning { error }
            },
        },
        (PublishStage::RemovingOld, FileReply::Done(result)) => match result {
            Ok(_) => PublishStage::Ended { outcome: Ok(()) },
            Err(error) => PublishStage::MovingOut { error },
        },
        (PublishStage::MovingOut { error }, FileReply::Done(_)) => {
            PublishStage::PuttingBack { error }
        },
        (PublishStage::PuttingBack { error }, FileReply::Done(_)) => {
            PublishStage::Cleaning { error }
        },
        (PublishStage::Cleaning { error }, FileReply::Done(_)) => PublishStage::Ended {
            outcome: Err(error),
        },
        _ => stage,
    }
}

/// What a publication asks for next.
pub fn publish_action(plan: &PublishPlan, stage: &PublishStage) -> (action: Option<FileAction>)
    ensures
        action == publish_asks(*plan, *stage),
{
    match stage {
        PublishStage::LookingUp => Some(FileAction::Look { path: plan.destination.clone() }),
        PublishStage::MovingOldAway => Some(
            FileAction::Rename { from: plan.destination.clone(), to: plan.previous.clone() },
        ),
        PublishStage::MovingIn { replaces: _ } => Some(
            FileAction::Rename { from: plan.staging.clone(), to: plan.destination.clone() },
        ),
        PublishStage::RemovingOld => Some(FileAction::RemoveTree { path: plan.previous.clone() }),
        PublishStage::MovingOut { error: _ } => Some(
            FileAction::Rename { from: plan.destination.clone(), to: plan.staging.clone() },
        ),
        PublishStage::PuttingBack { error: _ } => Some(
            FileAction::Rename { from: plan.previous.clone(), to: plan.destination.clone() },
        ),
        PublishStage::Cleaning { error: _ } => Some(
            FileAction::RemoveTree { path: plan.staging.clone() },
        ),
        PublishStage::Ended { outcome: _ } => None,
    }
}

/// The stage that `reply` leads to.
pub fn publish(stage: PublishStage, reply: FileReply) -> (next: PublishStage)
    ensures
        next == publish_next(stage, reply),
{
    match (stage, reply) {
        (PublishStage::LookingUp, FileReply::Found(found)) => if found {
            PublishStage::MovingOldAway
        } else {
            PublishStage::MovingIn { replaces: false }
        },
        (PublishStage::MovingOldAway, FileReply::Done(result)) => match result {
            Ok(_) => PublishStage::MovingIn { replaces: true },
            Err(error) => PublishStage::Cleaning { error },
        },
        (PublishStage::MovingIn { replaces }, FileReply::Done(result)) => match result {
            Ok(_) => if replaces {
                PublishStage::RemovingOld
            } else {
                PublishStage::Ended { outcome: Ok(()) }
            },
            Err(error) => if replaces {
                PublishStage::PuttingBack { error }
            } else {
                PublishStage::Cleaning { error }
            },
        },
        (PublishStage::RemovingOld, FileReply::Done(result)) => match result {
            Ok(_) => PublishStage::Ended { outcome: Ok(()) },
            Err(error) => PublishStage::MovingOut { error },
        },
        (PublishStage::MovingOut { error }, FileReply::Done(_)) => {
            PublishStage::PuttingBack { error }
        },
        (PublishStage::PuttingBack { error }, FileReply::Done(_)) => {
            PublishStage::Cleaning { error }
        },
        (PublishStage::Cleaning { error }, FileReply::Done(_)) => PublishStage::Ended {
            outcome: Err(error),
        },
        (stage, _) => stage,
    }
}

/// What stands in the three directories. A directory that is not there is
/// `None`.
pub struct Shelves<T> {
    pub destination: Option<T>,
    pub staging: Option<T>,
    pub previous: Option<T>,
}

/// What stands in the three directories after the action of `stage` succeeded
/// or failed. A rename that fails moves nothing, and a removal that fails is
/// taken to remove nothing.
pub open spec fn shelves_after<T>(
    stage: PublishStage,
    shelves: Shelves<T>,
    succeeded: bool,
) -> Shelves<T> {
    if !succeeded {
        shelves
    } else {
        match stage {
            PublishStage::MovingOldAway => Shelves {
                destination: None,
                previous: shelves.destination,
                ..shelves
            },
            PublishStage::MovingIn { replaces: _ } => Shelves {
                destination: shelves.staging,
                staging: None,
                ..shelves
            },
            PublishStage::RemovingOld => Shelves { previous: None, ..shelves },
            PublishStage::MovingOut { error: _ } => Shelves {
                staging: shelves.destination,
                destination: None,
                ..shelves
            },
            PublishStage::PuttingBack { error: _ } => Shelves {
                destination: shelves.previous,
                previous: None,
                ..shelves
            },
            PublishStage::Cleaning { error: _ } => Shelves { staging: None, ..shelves },
            _ => shelves,
        }
    }
}

/// Whether an action succeeded.
pub open spec fn went_well(reply: FileReply) -> bool {
    match reply {
        FileReply::Done(result) => result is Ok,
        _ => true,
    }
}

/// Whether `reply` answers the action of `stage` as the file system is: a look
/// at the destination tells whether something is there.
pub open spec fn answers<T>(stage: PublishStage, shelves: Shelves<T>, reply: FileReply) -> bool {
    match stage {
        PublishStage::LookingUp => reply == FileReply::Found(shelves.destination is Some),
        PublishStage::Ended { outcome: _ } => true,
        _ => reply is Done,
    }
}

/// Whether a step is one of the way back, and fails.
pub open spec fn breaks_the_way_back(stage: PublishStage, reply: FileReply) -> bool {
    match stage {
        PublishStage::MovingOut { error: _ } | PublishStage::PuttingBack { error: _ } => {
            !went_well(reply)
        },
        _ => false,
    }
}

/// Whether `stages` and `shelves` are what a publication goes through as
/// `replies` come in, from `old` in place and `new` unpacked.
pub open spec fn is_publication<T>(
    old_release: Option<T>,
    new_release: T,
    replies: Seq<FileReply>,
    stages: Seq<PublishStage>,
    shelves: Seq<Shelves<T>>,
) -> bool {
    &&& stages.len() == replies.len() + 1
    &&& shelves.len() == replies.len() + 1
    &&& stages[0] == PublishStage::LookingUp
    &&& shelves[0] == (Shelves {
        destination: old_release,
        staging: Some(new_release),
        previous: None,
    })
    &&& forall|i: int|
        #![trigger replies[i]]
        0 <= i < replies.len() ==> {
            &&& answers(stages[i], shelves[i], replies[i])
            &&& stages[i + 1] == publish_next(stages[i], replies[i])
            &&& shelves[i + 1] == shelves_after(stages[i], shelves[i], went_well(replies[i]))
        }
}

/// What stands where at each stage, as long as the way back holds.
pub open spec fn in_order<T>(
    old_release: Option<T>,
    new_release: T,
    stage: PublishStage,
    shelves: Shelves<T>,
) -> bool {
    match stage {
        PublishStage::LookingUp => shelves.destination == old_release && shelves.staging == Some(
            new_release,
        ) && shelves.previous is None,
        PublishStage::MovingOldAway => shelves.destination == old_release && old_release is Some
            && shelves.staging == Some(new_release) && shelves.previous is None,
        PublishStage::MovingIn { replaces } => {
            &&& replaces == old_release is Some
            &&& shelves.destination is None
            &&& shelves.previous == old_release
            &&& shelves.staging == Some(new_release)
        },
        PublishStage::RemovingOld => shelves.destination == Some(new_release) && shelves.previous
            == old_release,
        PublishStage::MovingOut { error: _ } => shelves.destination == Some(new_release)
            && shelves.previous == old_release,
        PublishStage::PuttingBack { error: _ } => shelves.destination is None && shelves.previous
            == old_release,
        PublishStage::Cleaning { error: _ } => shelves.destination == old_release,
        PublishStage::Ended { outcome } => match outcome {
            Ok(_) => shelves.destination == Some(new_release) && shelves.previous is None,
            Err(_) => shelves.destination == old_release,
        },
    }
}

/// A publication that succeeds has put the new release in place, whole, and has
/// left nothing of the old one. A publication that fails leaves the old release
/// where it was, or nothing where nothing was. This holds as long as the moves
/// that undo what was done do not fail in their turn.
pub proof fn a_release_is_replaced_whole_or_not_at_all<T>(
    old_release: Option<T>,
    new_release: T,
    replies: Seq<FileReply>,
    stages: Seq<PublishStage>,
    shelves: Seq<Shelves<T>>,
)
    requires
        is_publication(old_release, new_release, replies, stages, shelves),
        forall|i: int|
            0 <= i < replies.len() ==> !breaks_the_way_back(stages[i], #[trigger] replies[i]),
    ensures
        in_order(old_release, new_release, stages.last(), shelves.last()),
    decreases replies.len(),
{
    if replies.len() > 0 {
        let last = replies.len() - 1;
        let fewer = replies.drop_last();
        let earlier = stages.drop_last();
        let before = shelves.drop_last();
        assert forall|i: int| #![trigger fewer[i]] 0 <= i < fewer.len() implies {
            &&& answers(earlier[i], before[i], fewer[i])
            &&& earlier[i + 1] == publish_next(earlier[i], fewer[i])
            &&& before[i + 1] == shelves_after(earlier[i], before[i], went_well(fewer[i]))
            &&& !breaks_the_way_back(earlier[i], fewer[i])
        } by {
            assert(fewer[i] == replies[i]);
        }
        a_release_is_replaced_whole_or_not_at_all(
            old_release,
            new_release,
            fewer,
            earlier,
            before,
        );
        assert(replies[last] == replies.last());
        assert(earlier.last() == stages[last]);
        assert(before.last() == shelves[last]);
    }
}

/// The name by which a file is stored.
pub open spec fn stored_name(name: FileName) -> Seq<char> {
    match name {
        FileName::Unicode(text) => text@,
        FileName::Other(text) => text@,
    }
}

/// Whether `moved` is `dll` with its content in `destination`.
pub open spec fn is_moved(dll: CatalogDll, destination: Seq<char>, moved: CatalogDll) -> bool {
    &&& moved.file_name == dll.file_name
    &&& moved.version == dll.version
    &&& moved.sha256 == dll.sha256
    &&& moved.release == dll.release
    &&& moved.source@ == joined(destination, stored_name(dll.file_name))
}

/// The DLLs of a release once it stands in `destination`.
pub fn relocate(dlls: &Vec<CatalogDll>, destination: &FilePath) -> (moved: Vec<CatalogDll>)
    ensures
        moved.len() == dlls.len(),
        forall|i: int|
            0 <= i < dlls.len() ==> is_moved(dlls@[i], destination@, #[trigger] moved@[i]),
{
    let mut moved: Vec<CatalogDll> = Vec::new();
    let mut at: usize = 0;
    while at < dlls.len()
        invariant
            at <= dlls.len(),
            moved.len() == at,
            forall|i: int|
                0 <= i < at ==> is_moved(dlls@[i], destination@, #[trigger] moved@[i]),
        decreases dlls.len() - at,
    {
        let dll = &dlls[at];
        let source = match &dll.file_name {
            FileName::Unicode(text) => destination.join(text),
            FileName::Other(text) => destination.join(text),
        };
        moved.push(CatalogDll {
            file_name: dll.file_name.clone(),
            version: dll.version,
            sha256: dll.sha256,
            source,
            release: dll.release.clone(),
        });
        at += 1;
    }
    moved
}

/// How far the ingestion of an archive has come.
#[derive(Debug, PartialEq, Eq)]
pub enum IngestStage {
    CreatingParent,
    Extracting,
    /// The archive was refused; what was unpacked of it goes.
    Discarding { error: CatalogError },
    Publishing { stage: PublishStage, extracted: ValidatedRelease },
    Ended { outcome: Result<ValidatedRelease, CatalogError> },
}

/// What an ingestion asks for next.
#[derive(Debug, PartialEq, Eq)]
pub enum IngestAction {
    File(FileAction),
    /// Take the DLLs out of the archive, into the staging directory; answered by
    /// [`IngestReply::Extracted`].
    Extract,
    Rest,
}

/// What came of it.
#[derive(Debug, PartialEq, Eq)]
pub enum IngestReply {
    File(FileReply),
    Extracted(Result<ValidatedRelease, CatalogError>),
}

/// What an ingestion asks for at a stage.
pub open spec fn ingest_asks(plan: PublishPlan, stage: IngestStage) -> IngestAction {
    match stage {
        IngestStage::CreatingParent => IngestAction::File(
            FileAction::CreateDirectory { path: plan.parent },
        ),
        IngestStage::Extracting => IngestAction::Extract,
        IngestStage::Discarding { error: _ } => IngestAction::File(
            FileAction::RemoveTree { path: plan.staging },
        ),
        IngestStage::Publishing { stage, extracted: _ } => match publish_asks(plan, stage) {
            Some(action) => IngestAction::File(action),
            None => IngestAction::Rest,
        },
        IngestStage::Ended { outcome: _ } => IngestAction::Rest,
    }
}

/// Whether `published` is `extracted` with its DLLs in `destination`.
pub open spec fn is_published(
    extracted: ValidatedRelease,
    destination: Seq<char>,
    published: ValidatedRelease,
) -> bool {
    &&& published.validation == extracted.validation
    &&& published.dlls.len() == extracted.dlls.len()
    &&& forall|i: int|
        0 <= i < extracted.dlls.len() ==> is_moved(
            extracted.dlls@[i],
            destination,
            #[trigger] published.dlls@[i],
        )
}

/// Whether `next` is the stage that `reply` leads to. A reply that answers some
/// other action changes nothing.
pub open spec fn ingest_follows(
    plan: PublishPlan,
    stage: IngestStage,
    reply: IngestReply,
    next: IngestStage,
) -> bool {
    match (stage, reply) {
        (IngestStage::CreatingParent, IngestReply::File(FileReply::Done(result))) => match result {
            Ok(_) => next == IngestStage::Extracting,
            Err(error) => next matches IngestStage::Ended { outcome: Err(told) } && is_file_error(
                error,
                told,
            ),
        },
        (IngestStage::Extracting, IngestReply::Extracted(result)) => next == match result {
            Ok(extracted) => IngestStage::Publishing { stage: PublishStage::LookingUp, extracted },
            Err(error) => IngestStage::Discarding { error },
        },
        (IngestStage::Discarding { error }, IngestReply::File(FileReply::Done(_))) => next == (
        IngestStage::Ended { outcome: Err(error) }),
        (IngestStage::Publishing { stage, extracted }, IngestReply::File(reply)) => {
            match publish_next(stage, reply) {
                PublishStage::Ended { outcome: Ok(_) } => {
                    next matches IngestStage::Ended { outcome: Ok(published) } && is_published(
                        extracted,
                        plan.destination@,
                        published,
                    )
                },
                PublishStage::Ended { outcome: Err(error) } => {
                    next matches IngestStage::Ended { outcome: Err(told) } && is_file_error(
                        error,
                        told,
                    )
                },
                on => next == (IngestStage::Publishing { stage: on, extracted }),
            }
        },
        _ => next == stage,
    }
}

/// What an ingestion asks for next.
pub fn ingest_action(plan: &PublishPlan, stage: &IngestStage) -> (action: IngestAction)
    ensures
        action == ingest_asks(*plan, *stage),
{
    match stage {
        IngestStage::CreatingParent => IngestAction::File(
            FileAction::CreateDirectory { path: plan.parent.clone() },
        ),
        IngestStage::Extracting => IngestAction::Extract,
        IngestStage::Discarding { error: _ } => IngestAction::File(
            FileAction::RemoveTree { path: plan.staging.clone() },
        ),
        IngestStage::Publishing { stage, extracted: _ } => match publish_action(plan, stage) {
            Some(action) => IngestAction::File(action),
            None => IngestAction::Rest,
        },
        IngestStage::Ended { outcome: _ } => IngestAction::Rest,
    }
}

/// The stage that `reply` leads to. An archive is taken out beside the release
/// that is in use, and takes its place only once all of it was accepted.
pub fn validate_and_extract(plan: &PublishPlan, stage: IngestStage, reply: IngestReply) -> (next:
    IngestStage)
    ensures
        ingest_follows(*plan, stage, reply, next),
{
    match (stage, reply) {
        (IngestStage::CreatingParent, IngestReply::File(FileReply::Done(result))) => match result {
            Ok(_) => IngestStage::Extracting,
            Err(error) => IngestStage::Ended { outcome: Err(file_error(error)) },
        },
        (IngestStage::Extracting, IngestReply::Extracted(result)) => match result {
            Ok(extracted) => IngestStage::Publishing { stage: PublishStage::LookingUp, extracted },
            Err(error) => IngestStage::Discarding { error },
        },
        (IngestStage::Discarding { error }, IngestReply::File(FileReply::Done(_))) => {
            IngestStage::Ended { outcome: Err(error) }
        },
        (IngestStage::Publishing { stage, extracted }, IngestReply::File(reply)) => {
            match publish(stage, reply) {
                PublishStage::Ended { outcome: Ok(_) } => {
                    let dlls = relocate(&extracted.dlls, &plan.destination);
                    let published = ValidatedRelease { dlls, validation: extracted.validation };
                    proof {
                        assert(is_published(extracted, plan.destination@, published));
                    }
                    IngestStage::Ended { outcome: Ok(published) }
                },
                PublishStage::Ended { outcome: Err(error) } => IngestStage::Ended {
                    outcome: Err(file_error(error)),
                },
                on => IngestStage::Publishing { stage: on, extracted },
            }
        },
        (stage, _) => stage,
    }
}

/// An archive that is refused does not touch the release in use: until all of
/// it was accepted, only the directories beside it are worked on.
pub proof fn refused_archives_change_nothing(
    plan: PublishPlan,
    reply: IngestReply,
    error: CatalogError,
    next: IngestStage,
)
    requires
        ingest_follows(plan, IngestStage::Extracting, IngestReply::Extracted(Err(error)), next),
        reply is File && reply->File_0 is Done,
    ensures
        ingest_asks(plan, next) == IngestAction::File(
            FileAction::RemoveTree { path: plan.staging },
        ),
        forall|end: IngestStage| #[trigger]
            ingest_follows(plan, next, reply, end) ==> end == (IngestStage::Ended {
                outcome: Err(error),
            }),
{
}

/// Why a release could not be made ready.
#[derive(Debug, PartialEq, Eq)]
pub enum PrepareError {
    /// The archive in the cache could not be deleted.
    File(CoreError),
    Catalog(CatalogError),
    Github(GithubError),
}

/// How far the preparation of a release has come.
#[derive(Debug, PartialEq, Eq)]
pub enum PrepareStage {
    LookingForArchive,
    /// The archive in the cache is measured and its digest compared.
    CheckingArchive,
    RemovingArchive,
    Downloading,
    /// `fresh` says whether the archive was downloaded just now.
    Extracting { fresh: bool },
    Ended { outcome: Result<ValidatedRelease, PrepareError> },
}

/// What the preparation asks for next.
#[derive(Debug, PartialEq, Eq)]
pub enum PrepareAction {
    File(FileAction),
    /// Compare the archive in the cache with what GitHub published; answered by
    /// [`PrepareReply::Checked`].
    CheckArchive,
    /// Answered by [`PrepareReply::Downloaded`].
    Download,
    /// Answered by [`PrepareReply::Extracted`].
    Extract,
    /// Nothing: the preparation has ended.
    Rest,
}

/// What came of it.
#[derive(Debug, PartialEq, Eq)]
pub enum PrepareReply {
    File(FileReply),
    Checked(Result<(), GithubError>),
    Downloaded(Result<(), GithubError>),
    Extracted(Result<ValidatedRelease, CatalogError>),
}

/// What the preparation asks for next.
pub open spec fn prepare_asks(archive: FilePath, stage: PrepareStage) -> PrepareAction {
    match stage {
        PrepareStage::LookingForArchive => PrepareAction::File(FileAction::Look { path: archive }),
        PrepareStage::CheckingArchive => PrepareAction::CheckArchive,
        PrepareStage::RemovingArchive => PrepareAction::File(FileAction::Remove { path: archive }),
        PrepareStage::Downloading => PrepareAction::Download,
        PrepareStage::Extracting { fresh: _ } => PrepareAction::Extract,
        PrepareStage::Ended { outcome: _ } => PrepareAction::Rest,
    }
}

/// Whether an archive that failed in this way may be a broken copy in the
/// cache, so that another download may help.
pub open spec fn may_be_broken_copy(error: CatalogError) -> bool {
    error is Zip || error is TooLarge || error is InvalidPe
}

/// The stage that `reply` leads to. A reply that answers some other action
/// changes nothing.
pub open spec fn prepare_next(stage: PrepareStage, reply: PrepareReply) -> PrepareStage {
    match (stage, reply) {
        (PrepareStage::LookingForArchive, PrepareReply::File(FileReply::Found(found))) => if found {
            PrepareStage::CheckingArchive
        } else {
            PrepareStage::Downloading
        },
        (PrepareStage::CheckingArchive, PrepareReply::Checked(result)) => match result {
            Ok(_) => PrepareStage::Extracting { fresh: false },
            Err(_) => PrepareStage::RemovingArchive,
        },
        (PrepareStage::RemovingArchive, PrepareReply::File(FileReply::Done(result))) => match result {
            Ok(_) => PrepareStage::Downloading,
            Err(error) => PrepareStage::Ended { outcome: Err(PrepareError::File(error)) },
        },
        (PrepareStage::Downloading, PrepareReply::Downloaded(result)) => match result {
            Ok(_) => PrepareStage::Extracting { fresh: true },
            Err(error) => PrepareStage::Ended { outcome: Err(PrepareError::Github(error)) },
        },
        (PrepareStage::Extracting { fresh }, PrepareReply::Extracted(result)) => match result {
            Ok(release) => PrepareStage::Ended { outcome: Ok(release) },
            Err(error) => if !fresh && may_be_broken_copy(error) {
                PrepareStage::RemovingArchive
            } else {
                PrepareStage::Ended { outcome: Err(PrepareError::Catalog(error)) }
            },
        },
        _ => stage,
    }
}

/// What the preparation asks for next.
pub fn prepare_action(archive: &FilePath, stage: &PrepareStage) -> (action: PrepareAction)
    ensures
        action == prepare_asks(*archive, *stage),
{
    match stage {
        PrepareStage::LookingForArchive => PrepareAction::File(
            FileAction::Look { path: archive.clone() },
        ),
        PrepareStage::CheckingArchive => PrepareAction::CheckArchive,
        PrepareStage::RemovingArchive => PrepareAction::File(
            FileAction::Remove { path: archive.clone() },
        ),
        PrepareStage::Downloading => PrepareAction::Download,
        PrepareStage::Extracting { fresh: _ } => PrepareAction::Extract,
        PrepareStage::Ended { outcome: _ } => PrepareAction::Rest,
    }
}

/// The stage that `reply` leads to. An archive from the cache that turns out to
/// be broken is downloaded again, once.
pub fn prepare_release(stage: PrepareStage, reply: PrepareReply) -> (next: PrepareStage)
    ensures
        next == prepare_next(stage, reply),
{
    match (stage, reply) {
        (PrepareStage::LookingForArchive, PrepareReply::File(FileReply::Found(found))) => if found {
            PrepareStage::CheckingArchive
        } else {
            PrepareStage::Downloading
        },
        (PrepareStage::CheckingArchive, PrepareReply::Checked(result)) => match result {
            Ok(_) => PrepareStage::Extracting { fresh: false },
            Err(_) => PrepareStage::RemovingArchive,
        },
        (PrepareStage::RemovingArchive, PrepareReply::File(FileReply::Done(result))) => match result {
            Ok(_) => PrepareStage::Downloading,
            Err(error) => PrepareStage::Ended { outcome: Err(PrepareError::File(error)) },
        },
        (PrepareStage::Downloading, PrepareReply::Downloaded(result)) => match result {
            Ok(_) => PrepareStage::Extracting { fresh: true },
            Err(error) => PrepareStage::Ended { outcome: Err(PrepareError::Github(error)) },
        },
        (PrepareStage::Extracting { fresh }, PrepareReply::Extracted(result)) => match result {
            Ok(release) => PrepareStage::Ended { outcome: Ok(release) },
            Err(error) => {
                let broken = match &error {
                    CatalogError::Zip(_) | CatalogError::TooLarge | CatalogError::InvalidPe(_) => {
                        true
                    },
                    _ => false,
                };
                if !fresh && broken {
                    PrepareStage::RemovingArchive
                } else {
                    PrepareStage::Ended { outcome: Err(PrepareError::Catalog(error)) }
                }
            },
        },
        (stage, _) => stage,
    }
}

/// What the user is shown of a release on its way.
#[derive(Clone, Copy, Debug, PartialEq, Eq, Structural)]
pub struct ReleaseProgress {
    pub state: ReleaseState,
    pub received: u64,
    pub total: Option<u64>,
}

/// What the user is shown when a stage begins: that the download starts, or
/// that the archive is there and is being validated.
pub fn stage_progress(stage: &PrepareStage, size: u64) -> (shown: Vec<ReleaseProgress>)
    ensures
        match *stage {
            PrepareStage::Downloading => shown@ == seq![
                ReleaseProgress {
                    state: ReleaseState::Downloading,
                    received: 0,
                    total: Some(size),
                },
            ],
            PrepareStage::Extracting { fresh: _ } => shown@ == seq![
                ReleaseProgress {
                    state: ReleaseState::Downloaded,
                    received: size,
                    total: Some(size),
                },
                ReleaseProgress {
                    state: ReleaseState::Validating,
                    received: size,
                    total: Some(size),
                },
            ],
            _ => shown@.len() == 0,
        },
{
    let mut shown: Vec<ReleaseProgress> = Vec::new();
    match stage {
        PrepareStage::Downloading => {
            shown.push(ReleaseProgress {
                state: ReleaseState::Downloading,
                received: 0,
                total: Some(size),
            });
        },
        PrepareStage::Extracting { fresh: _ } => {
            shown.push(ReleaseProgress {
                state: ReleaseState::Downloaded,
                received: size,
                total: Some(size),
            });
            shown.push(ReleaseProgress {
                state: ReleaseState::Validating,
                received: size,
                total: Some(size),
            });
        },
        _ => {},
    }
    shown
}

/// Whether `stages` are the stages that a preparation goes through as `replies`
/// come in.
pub open spec fn is_preparation(replies: Seq<PrepareReply>, stages: Seq<PrepareStage>) -> bool {
    &&& stages.len() == replies.len() + 1
    &&& stages[0] == PrepareStage::LookingForArchive
    &&& forall|i: int|
        0 <= i < replies.len() ==> stages[i + 1] == prepare_next(stages[i], #[trigger] replies[i])
}

/// Whether a preparation is past its download.
pub open spec fn is_past_download(stage: PrepareStage) -> bool {
    stage is Ended || stage == (PrepareStage::Extracting { fresh: true })
}

/// A preparation downloads at most once: after a download was answered, no
/// other one is asked for.
pub proof fn a_release_is_downloaded_at_most_once(
    replies: Seq<PrepareReply>,
    stages: Seq<PrepareStage>,
    first: int,
    later: int,
)
    requires
        is_preparation(replies, stages),
        0 <= first < later < stages.len(),
        stages[first] == PrepareStage::Downloading,
        replies[first] is Downloaded,
    ensures
        is_past_download(stages[later]),
        stages[later] != PrepareStage::Downloading,
    decreases later,
{
    if later == first + 1 {
        assert(stages[first + 1] == prepare_next(stages[first], replies[first]));
    } else {
        a_release_is_downloaded_at_most_once(replies, stages, first, later - 1);
        assert(stages[later] == prepare_next(stages[later - 1], replies[later - 1]));
    }
}

/// What a directory holds after a file action succeeded: a rename moves what
/// stood in one place to the other, and a removal takes it away.
pub open spec fn directory_after<T>(
    contents: Map<Seq<char>, T>,
    action: FileAction,
) -> Map<Seq<char>, T> {
    match action {
        FileAction::Rename { from, to } => if contents.contains_key(from@) {
            contents.remove(from@).insert(to@, contents[from@])
        } else {
            contents
        },
        FileAction::RemoveTree { path } => contents.remove(path@),
        _ => contents,
    }
}

/// What stands at a path, if anything does.
pub open spec fn standing_at<T>(contents: Map<Seq<char>, T>, path: FilePath) -> Option<T> {
    if contents.contains_key(path@) {
        Some(contents[path@])
    } else {
        None
    }
}

/// The actions of a publication do what it is for: of the directory that they
/// work on, a publication that succeeds leaves the new release at its place and
/// nothing of the old one, one that fails leaves the old release where it was,
/// and neither touches anything else. This holds as long as the steps back do
/// not fail in their turn.
pub proof fn publications_move_the_release<T>(
    plan: PublishPlan,
    new_release: T,
    replies: Seq<FileReply>,
    stages: Seq<PublishStage>,
    contents: Seq<Map<Seq<char>, T>>,
    other: FilePath,
)
    requires
        plan.destination@ != plan.staging@,
        plan.destination@ != plan.previous@,
        plan.staging@ != plan.previous@,
        stages.len() == replies.len() + 1,
        contents.len() == replies.len() + 1,
        stages[0] == PublishStage::LookingUp,
        standing_at(contents[0], plan.staging) == Some(new_release),
        standing_at(contents[0], plan.previous) is None,
        forall|i: int|
            #![trigger replies[i]]
            0 <= i < replies.len() ==> {
                &&& stages[i + 1] == publish_next(stages[i], replies[i])
                &&& match publish_asks(plan, stages[i]) {
                    Some(FileAction::Look { path }) => replies[i] == FileReply::Found(
                        contents[i].contains_key(path@),
                    ) && contents[i + 1] == contents[i],
                    Some(action) => (replies[i] matches FileReply::Done(result) && contents[i + 1]
                        == if result is Ok {
                        directory_after(contents[i], action)
                    } else {
                        contents[i]
                    } && (stages[i] is MovingOut || stages[i] is PuttingBack ==> result is Ok)),
                    None => contents[i + 1] == contents[i],
                }
            },
        other@ != plan.destination@,
        other@ != plan.staging@,
        other@ != plan.previous@,
    ensures
        stages.last() matches PublishStage::Ended { outcome } ==> {
            &&& outcome is Ok ==> standing_at(contents.last(), plan.destination) == Some(
                new_release,
            ) && standing_at(contents.last(), plan.previous) is None
            &&& outcome is Err ==> standing_at(contents.last(), plan.destination) == standing_at(
                contents[0],
                plan.destination,
            )
        },
        standing_at(contents.last(), other) == standing_at(contents[0], other),
{
    publication_holds(plan, new_release, replies, stages, contents, other);
}

proof fn publication_holds<T>(
    plan: PublishPlan,
    new_release: T,
    replies: Seq<FileReply>,
    stages: Seq<PublishStage>,
    contents: Seq<Map<Seq<char>, T>>,
    other: FilePath,
)
    requires
        plan.destination@ != plan.staging@,
        plan.destination@ != plan.previous@,
        plan.staging@ != plan.previous@,
        stages.len() == replies.len() + 1,
        contents.len() == replies.len() + 1,
        stages[0] == PublishStage::LookingUp,
        standing_at(contents[0], plan.staging) == Some(new_release),
        standing_at(contents[0], plan.previous) is None,
        forall|i: int|
            #![trigger replies[i]]
            0 <= i < replies.len() ==> {
                &&& stages[i + 1] == publish_next(stages[i], replies[i])
                &&& match publish_asks(plan, stages[i]) {
                    Some(FileAction::Look { path }) => replies[i] == FileReply::Found(
                        contents[i].contains_key(path@),
                    ) && contents[i + 1] == contents[i],
                    Some(action) => (replies[i] matches FileReply::Done(result) && contents[i + 1]
                        == if result is Ok {
                        directory_after(contents[i], action)
                    } else {
                        contents[i]
                    } && (stages[i] is MovingOut || stages[i] is PuttingBack ==> result is Ok)),
                    None => contents[i + 1] == contents[i],
                }
            },
        other@ != plan.destination@,
        other@ != plan.staging@,
        other@ != plan.previous@,
    ensures
        in_order(
            standing_at(contents[0], plan.destination),
            new_release,
            stages.last(),
            Shelves {
                destination: standing_at(contents.last(), plan.destination),
                staging: standing_at(contents.last(), plan.staging),
                previous: standing_at(contents.last(), plan.previous),
            },
        ),
        standing_at(contents.last(), other) == standing_at(contents[0], other),
    decreases replies.len(),
{
    if replies.len() > 0 {
        let last = replies.len() - 1;
        let fewer = replies.drop_last();
        let earlier = stages.drop_last();
        let before = contents.drop_last();
        assert forall|i: int| #![trigger fewer[i]] 0 <= i < fewer.len() implies {
            &&& earlier[i + 1] == publish_next(earlier[i], fewer[i])
            &&& match publish_asks(plan, earlier[i]) {
                Some(FileAction::Look { path }) => fewer[i] == FileReply::Found(
                    before[i].contains_key(path@),
                ) && before[i + 1] == before[i],
                Some(action) => (fewer[i] matches FileReply::Done(result) && before[i + 1]
                    == if result is Ok {
                    directory_after(before[i], action)
                } else {
                    before[i]
                } && (earlier[i] is MovingOut || earlier[i] is PuttingBack ==> result is Ok)),
                None => before[i + 1] == before[i],
            }
        } by {
            assert(fewer[i] == replies[i]);
        }
        publication_holds(plan, new_release, fewer, earlier, before, other);
        assert(replies[last] == replies.last());
        assert(earlier.last() == stages[last]);
        assert(before.last() == contents[last]);
    }
}

/// A publication whose steps all succeed succeeds, whether or not there was an
/// old release: with one in four steps, without one in two.
pub proof fn a_smooth_publication_succeeds(stages: Seq<PublishStage>, replaces: bool)
    requires
        stages.len() == if replaces {
            5int
        } else {
            3int
        },
        stages[0] == PublishStage::LookingUp,
        stages[1] == publish_next(stages[0], FileReply::Found(replaces)),
        forall|i: int|
            1 <= i < stages.len() - 1 ==> stages[i + 1] == publish_next(
                #[trigger] stages[i],
                FileReply::Done(Ok(())),
            ),
    ensures
        stages.last() == (PublishStage::Ended { outcome: Ok(()) }),
{
    assert(stages[2] == publish_next(stages[1], FileReply::Done(Ok(()))));
    if replaces {
        assert(stages[3] == publish_next(stages[2], FileReply::Done(Ok(()))));
        assert(stages[4] == publish_next(stages[3], FileReply::Done(Ok(()))));
    }
}

/// An archive that was accepted is published, and the release that comes of it
/// holds each of its DLLs once, in their order and as it was found, with its
/// content in the directory of the release under its own name.
pub proof fn accepted_archives_are_published(
    plan: PublishPlan,
    extracted: ValidatedRelease,
    replaces: bool,
    stages: Seq<IngestStage>,
)
    requires
        stages.len() == if replaces {
            7int
        } else {
            5int
        },
        stages[0] == IngestStage::CreatingParent,
        ingest_follows(plan, stages[0], IngestReply::File(FileReply::Done(Ok(()))), stages[1]),
        ingest_follows(plan, stages[1], IngestReply::Extracted(Ok(extracted)), stages[2]),
        ingest_follows(plan, stages[2], IngestReply::File(FileReply::Found(replaces)), stages[3]),
        forall|i: int|
            3 <= i < stages.len() - 1 ==> ingest_follows(
                plan,
                #[trigger] stages[i],
                IngestReply::File(FileReply::Done(Ok(()))),
                stages[i + 1],
            ),
    ensures
        ingest_asks(plan, stages[0]) == IngestAction::File(
            FileAction::CreateDirectory { path: plan.parent },
        ),
        ingest_asks(plan, stages[1]) == IngestAction::Extract,
        stages.last() matches IngestStage::Ended { outcome: Ok(published) }
            && published.validation == extracted.validation && published.dlls.len()
            == extracted.dlls.len() && forall|i: int|
            0 <= i < extracted.dlls.len() ==> {
                let found = extracted.dlls@[i];
                let kept = #[trigger] published.dlls@[i];
                &&& kept.file_name == found.file_name
                &&& kept.version == found.version
                &&& kept.sha256 == found.sha256
                &&& kept.release == found.release
                &&& kept.source@ == joined(
                    plan.destination@,
                    match found.file_name {
                        FileName::Unicode(text) => text@,
                        FileName::Other(text) => text@,
                    },
                )
            },
{
    let done = IngestReply::File(FileReply::Done(Ok(())));
    assert(ingest_follows(plan, stages[3], done, stages[4]));
    if replaces {
        assert(ingest_follows(plan, stages[4], done, stages[5]));
        assert(ingest_follows(plan, stages[5], done, stages[6]));
    }
}

/// A preparation makes do with the archive in the cache where that is sound.
/// Where there is none, where it is not the published one, or where it turns
/// out to be broken, the archive is downloaded; a broken one is deleted first.
/// What is wrong with a fresh archive, or with one in a way that no download
/// helps, ends the preparation.
pub proof fn the_cached_archive_is_used_where_sound(
    archive: FilePath,
    release: ValidatedRelease,
    refusal: CatalogError,
    fault: GithubError,
    error: CoreError,
)
    ensures
        prepare_asks(archive, PrepareStage::LookingForArchive) == PrepareAction::File(
            FileAction::Look { path: archive },
        ),
        prepare_asks(archive, PrepareStage::RemovingArchive) == PrepareAction::File(
            FileAction::Remove { path: archive },
        ),
        prepare_next(
            PrepareStage::LookingForArchive,
            PrepareReply::File(FileReply::Found(true)),
        ) == PrepareStage::CheckingArchive,
        prepare_next(
            PrepareStage::LookingForArchive,
            PrepareReply::File(FileReply::Found(false)),
        ) == PrepareStage::Downloading,
        prepare_next(PrepareStage::CheckingArchive, PrepareReply::Checked(Ok(()))) == (
        PrepareStage::Extracting { fresh: false }),
        prepare_next(PrepareStage::CheckingArchive, PrepareReply::Checked(Err(fault)))
            == PrepareStage::RemovingArchive,
        prepare_next(
            PrepareStage::RemovingArchive,
            PrepareReply::File(FileReply::Done(Ok(()))),
        ) == PrepareStage::Downloading,
        prepare_next(
            PrepareStage::RemovingArchive,
            PrepareReply::File(FileReply::Done(Err(error))),
        ) == (PrepareStage::Ended { outcome: Err(PrepareError::File(error)) }),
        prepare_next(PrepareStage::Downloading, PrepareReply::Downloaded(Ok(()))) == (
        PrepareStage::Extracting { fresh: true }),
        prepare_next(PrepareStage::Downloading, PrepareReply::Downloaded(Err(fault))) == (
        PrepareStage::Ended { outcome: Err(PrepareError::Github(fault)) }),
        forall|fresh: bool|
            #![trigger prepare_next(PrepareStage::Extracting { fresh }, PrepareReply::Extracted(Ok(release)))]
            prepare_next(
                PrepareStage::Extracting { fresh },
                PrepareReply::Extracted(Ok(release)),
            ) == (PrepareStage::Ended { outcome: Ok(release) }),
        forall|fresh: bool|
            #![trigger prepare_next(PrepareStage::Extracting { fresh }, PrepareReply::Extracted(Err(refusal)))]
            prepare_next(
                PrepareStage::Extracting { fresh },
                PrepareReply::Extracted(Err(refusal)),
            ) == if !fresh && (refusal is Zip || refusal is TooLarge || refusal is InvalidPe) {
                PrepareStage::RemovingArchive
            } else {
                PrepareStage::Ended { outcome: Err(PrepareError::Catalog(refusal)) }
            },
{
}

/// The three directories of a publication are three: the release, the one that
/// it is unpacked to and the one that the old release goes to.
pub proof fn publication_places_differ(parent: Seq<char>, leaf: Seq<char>, unique: Seq<char>)
    ensures
        ({
            let staging = joined(parent, "."@ + leaf + (".staging-"@ + unique));
            let previous = joined(parent, "."@ + leaf + (".previous-"@ + unique));
            &&& staging != previous
            &&& staging != joined(parent, leaf)
            &&& previous != joined(parent, leaf)
        }),
{
    reveal_strlit(".");
    reveal_strlit(".staging-");
    reveal_strlit(".previous-");
    let staging = joined(parent, "."@ + leaf + (".staging-"@ + unique));
    let previous = joined(parent, "."@ + leaf + (".previous-"@ + unique));
    assert(staging.len() != previous.len());
    assert(staging.len() != joined(parent, leaf).len());
    assert(previous.len() != joined(parent, leaf).len());
}

} // verus!
