//! The backup store: content-addressed copies of replaced files and the index
//! that says where they came from.

use crate::digest::{hex, hex_hash, same_hash};
use crate::files::{is_unsealed, unseal, Envelope, FileAction, FileReply};
use crate::lists::{picks, picks_grow, picks_nothing};
use crate::model::{BackupIndex, BackupRecord, DllVersion, SignatureStatus};
use crate::paths::{joined, FilePath};
use crate::planning::backup_as;
use crate::text::join_two;
use crate::traits::{error_text, refused, CoreError};
use crate::trust::{is_nvidia_signature, nvidia_signature, RevocationStatus, TrustReport};
use vstd::prelude::*;

verus! {

/// The version of the index format.
pub const BACKUP_SCHEMA_VERSION: u32 = 1;

/// Where backups are kept.
#[derive(Debug, PartialEq, Eq)]
pub struct BackupStore {
    pub root: FilePath,
}

/// A backup that is not offered, and why.
#[derive(Debug, PartialEq, Eq)]
pub struct RejectedBackup {
    pub record: BackupRecord,
    /// The path of the file that was backed up, as the platform spells it.
    pub shown: String,
    pub reason: String,
}

/// What became of the backups when their index was loaded.
#[derive(Debug, PartialEq, Eq)]
pub struct BackupLoadReport {
    pub usable: Vec<BackupRecord>,
    pub rejected: Vec<RejectedBackup>,
    /// How many were accepted although revocation could not be checked.
    pub offline_revocation_fallbacks: usize,
}

/// Whether a record is about the content `sha256` of the file at `path`.
pub open spec fn is_copy_of(record: BackupRecord, sha256: [u8; 32], path: Seq<char>) -> bool {
    record.sha256 == sha256 && record.original_path@ == path
}

/// The position of the first record about the content `sha256` of the file at
/// `path`, or the number of records if there is none.
pub open spec fn copy_position(
    records: Seq<BackupRecord>,
    sha256: [u8; 32],
    path: Seq<char>,
) -> int
    decreases records.len(),
{
    if records.len() == 0 {
        0
    } else {
        let before = copy_position(records.drop_last(), sha256, path);
        if before < records.len() - 1 {
            before
        } else if is_copy_of(records.last(), sha256, path) {
            records.len() - 1
        } else {
            records.len() as int
        }
    }
}

/// The index after `record` was committed: in place of the record about the
/// same content of the same file, or at the end.
pub open spec fn with_backup(records: Seq<BackupRecord>, record: BackupRecord) -> Seq<
    BackupRecord,
> {
    let at = copy_position(records, record.sha256, record.original_path@);
    if at < records.len() {
        records.update(at, record)
    } else {
        records.push(record)
    }
}

/// Whether no content of a file is listed twice.
pub open spec fn lists_once(records: Seq<BackupRecord>) -> bool {
    forall|i: int, j: int|
        #![trigger records[i], records[j]]
        0 <= i < j < records.len() ==> !is_copy_of(
            records[i],
            records[j].sha256,
            records[j].original_path@,
        )
}

proof fn copy_position_facts(records: Seq<BackupRecord>, sha256: [u8; 32], path: Seq<char>)
    ensures
        ({
            let at = copy_position(records, sha256, path);
            &&& 0 <= at <= records.len()
            &&& at < records.len() ==> is_copy_of(records[at], sha256, path)
            &&& forall|i: int| 0 <= i < at ==> !is_copy_of(#[trigger] records[i], sha256, path)
            &&& backup_as(records, sha256, path) == if at < records.len() {
                Some(records[at])
            } else {
                None
            }
        }),
    decreases records.len(),
{
    if records.len() > 0 {
        let shorter = records.drop_last();
        copy_position_facts(shorter, sha256, path);
        let at = copy_position(records, sha256, path);
        assert forall|i: int| 0 <= i < at implies !is_copy_of(
            #[trigger] records[i],
            sha256,
            path,
        ) by {
            if i < shorter.len() {
                assert(shorter[i] == records[i]);
            }
        }
    }
}

proof fn copy_position_is(records: Seq<BackupRecord>, sha256: [u8; 32], path: Seq<char>, at: int)
    requires
        0 <= at < records.len(),
        is_copy_of(records[at], sha256, path),
        forall|i: int| 0 <= i < at ==> !is_copy_of(#[trigger] records[i], sha256, path),
    ensures
        copy_position(records, sha256, path) == at,
{
    copy_position_facts(records, sha256, path);
    let found = copy_position(records, sha256, path);
    if found < at {
        assert(!is_copy_of(records[found], sha256, path));
    }
}

/// What was committed is what a restore of that content of that file finds.
pub proof fn committed_backups_are_found(records: Seq<BackupRecord>, record: BackupRecord)
    ensures
        backup_as(with_backup(records, record), record.sha256, record.original_path@) == Some(
            record,
        ),
{
    let sha256 = record.sha256;
    let path = record.original_path@;
    copy_position_facts(records, sha256, path);
    let at = copy_position(records, sha256, path);
    let after = with_backup(records, record);
    assert forall|i: int| 0 <= i < at implies !is_copy_of(#[trigger] after[i], sha256, path) by {
        assert(after[i] == records[i]);
    }
    copy_position_is(after, sha256, path, at);
    copy_position_facts(after, sha256, path);
}

/// A commit changes nothing about other files or other content.
pub proof fn commits_leave_other_backups_alone(
    records: Seq<BackupRecord>,
    record: BackupRecord,
    sha256: [u8; 32],
    path: Seq<char>,
)
    requires
        sha256 != record.sha256 || path != record.original_path@,
    ensures
        backup_as(with_backup(records, record), sha256, path) == backup_as(records, sha256, path),
{
    let at = copy_position(records, record.sha256, record.original_path@);
    copy_position_facts(records, record.sha256, record.original_path@);
    let after = with_backup(records, record);
    copy_position_facts(records, sha256, path);
    copy_position_facts(after, sha256, path);
    let here = copy_position(records, sha256, path);
    let there = copy_position(after, sha256, path);
    if here < records.len() {
        assert(here != at);
        assert(after[here] == records[here]);
        assert forall|i: int| 0 <= i < here implies !is_copy_of(
            #[trigger] after[i],
            sha256,
            path,
        ) by {
            if i != at {
                assert(after[i] == records[i]);
            }
        }
        copy_position_is(after, sha256, path, here);
    } else if there < after.len() {
        assert(there != at);
        assert(after[there] == records[there]);
        assert(is_copy_of(records[there], sha256, path));
    }
}

/// Committing keeps every content of a file listed once; committing the same
/// content of a file again does not make the index longer.
pub proof fn commits_list_once(records: Seq<BackupRecord>, record: BackupRecord)
    requires
        lists_once(records),
    ensures
        lists_once(with_backup(records, record)),
        backup_as(records, record.sha256, record.original_path@) is Some ==> with_backup(
            records,
            record,
        ).len() == records.len(),
        backup_as(records, record.sha256, record.original_path@) is None ==> with_backup(
            records,
            record,
        ) == records.push(record),
{
    let at = copy_position(records, record.sha256, record.original_path@);
    copy_position_facts(records, record.sha256, record.original_path@);
    let after = with_backup(records, record);
    assert forall|i: int, j: int|
        #![trigger after[i], after[j]]
        0 <= i < j < after.len() implies !is_copy_of(
        after[i],
        after[j].sha256,
        after[j].original_path@,
    ) by {
        if i == at {
            assert(after[j] == records[j]);
            assert(!is_copy_of(records[i], records[j].sha256, records[j].original_path@));
        } else if j == at {
            assert(after[i] == records[i]);
        } else {
            assert(after[i] == records[i] && after[j] == records[j]);
        }
    }
}

/// A backup that is about to be made.
#[derive(Debug, PartialEq, Eq)]
pub struct BackupRequest {
    pub original: FilePath,
    pub expected_sha256: [u8; 32],
    pub created_unix: i64,
}

/// How far a commit has come.
#[derive(Debug, PartialEq, Eq)]
pub enum CommitStage {
    Inspecting,
    CreatingDirectory { version: Option<DllVersion> },
    LookingUp { version: Option<DllVersion> },
    Copying { version: Option<DllVersion> },
    Renaming { version: Option<DllVersion> },
    /// The rename failed; somebody else may have stored the same content.
    LookingForRival { version: Option<DllVersion>, error: CoreError },
    DiscardingCopy { version: Option<DllVersion> },
    HashingRival { version: Option<DllVersion> },
    LoadingIndex { version: Option<DllVersion> },
    SavingIndex { index: BackupIndex, record: BackupRecord },
    Ended { outcome: Result<BackupRecord, CoreError> },
}

/// What a commit asks for next.
#[derive(Debug, PartialEq, Eq)]
pub enum CommitAction {
    File(FileAction),
    /// Load the index; answered by [`CommitReply::Index`].
    LoadIndex,
    /// Save the index that the stage holds; answered by [`FileReply::Done`].
    SaveIndex,
    /// Nothing: the commit has ended.
    Rest,
}

/// What came of it.
#[derive(Debug, PartialEq, Eq)]
pub enum CommitReply {
    File(FileReply),
    Index(Result<BackupIndex, CoreError>),
}

/// The directory of the stored contents.
pub open spec fn objects_of(root: Seq<char>) -> Seq<char> {
    joined(root, "objects"@)
}

/// Where the content with the digest `sha256` is stored.
pub open spec fn object_of(root: Seq<char>, sha256: [u8; 32]) -> Seq<char> {
    joined(objects_of(root), hex(sha256@))
}

/// Where a copy is written before it is complete.
pub open spec fn partial_of(root: Seq<char>, sha256: [u8; 32]) -> Seq<char> {
    object_of(root, sha256) + ".partial"@
}

/// Whether `action` is the one that belongs to `stage`.
pub open spec fn asks(
    root: Seq<char>,
    request: BackupRequest,
    stage: CommitStage,
    action: CommitAction,
) -> bool {
    let object = object_of(root, request.expected_sha256);
    let partial = partial_of(root, request.expected_sha256);
    match stage {
        CommitStage::Inspecting => action == CommitAction::File(
            FileAction::Inspect { path: request.original },
        ),
        CommitStage::CreatingDirectory { version: _ } => action matches CommitAction::File(
            FileAction::CreateDirectory { path },
        ) && path@ == objects_of(root),
        CommitStage::LookingUp { version: _ } => action matches CommitAction::File(
            FileAction::Look { path },
        ) && path@ == object,
        CommitStage::Copying { version: _ } => action matches CommitAction::File(
            FileAction::Copy { from, to, sha256 },
        ) && from == request.original && to@ == partial && sha256 == request.expected_sha256,
        CommitStage::Renaming { version: _ } => action matches CommitAction::File(
            FileAction::Rename { from, to },
        ) && from@ == partial && to@ == object,
        CommitStage::LookingForRival { version: _, error: _ } => action matches CommitAction::File(
            FileAction::Look { path },
        ) && path@ == object,
        CommitStage::DiscardingCopy { version: _ } => action matches CommitAction::File(
            FileAction::Remove { path },
        ) && path@ == partial,
        CommitStage::HashingRival { version: _ } => action matches CommitAction::File(
            FileAction::Hash { path },
        ) && path@ == object,
        CommitStage::LoadingIndex { version: _ } => action == CommitAction::LoadIndex,
        CommitStage::SavingIndex { index: _, record: _ } => action == CommitAction::SaveIndex,
        CommitStage::Ended { outcome: _ } => action == CommitAction::Rest,
    }
}

/// Whether `record` is what a commit records.
pub open spec fn is_record_of(
    root: Seq<char>,
    request: BackupRequest,
    version: Option<DllVersion>,
    record: BackupRecord,
) -> bool {
    &&& record.sha256 == request.expected_sha256
    &&& record.content_path@ == object_of(root, request.expected_sha256)
    &&& record.original_path == request.original
    &&& record.version == version
    &&& record.created_unix == request.created_unix
}

/// Whether a commit has failed with `error`.
pub open spec fn failed(stage: CommitStage, error: CoreError) -> bool {
    stage == (CommitStage::Ended { outcome: Err(error) })
}

/// Whether `next` is the stage that `reply` leads to from `stage`. A reply that
/// answers some other action changes nothing.
pub open spec fn commit_follows(
    root: Seq<char>,
    request: BackupRequest,
    stage: CommitStage,
    reply: CommitReply,
    next: CommitStage,
) -> bool {
    match (stage, reply) {
        (CommitStage::Inspecting, CommitReply::File(FileReply::Inspected(result))) => match result {
            Err(error) => failed(next, error),
            Ok(metadata) => if metadata.sha256 == request.expected_sha256 {
                next == (CommitStage::CreatingDirectory { version: metadata.version })
            } else {
                failed(next, CoreError::StalePlan)
            },
        },
        (
            CommitStage::CreatingDirectory { version },
            CommitReply::File(FileReply::Done(result)),
        ) => match result {
            Err(error) => failed(next, error),
            Ok(_) => next == (CommitStage::LookingUp { version }),
        },
        (CommitStage::LookingUp { version }, CommitReply::File(FileReply::Found(found))) => next
            == if found {
            CommitStage::LoadingIndex { version }
        } else {
            CommitStage::Copying { version }
        },
        (CommitStage::Copying { version }, CommitReply::File(FileReply::Done(result))) => match result {
            Err(error) => failed(next, error),
            Ok(_) => next == (CommitStage::Renaming { version }),
        },
        (CommitStage::Renaming { version }, CommitReply::File(FileReply::Done(result))) => match result {
            Err(error) => next == (CommitStage::LookingForRival { version, error }),
            Ok(_) => next == (CommitStage::LoadingIndex { version }),
        },
        (
            CommitStage::LookingForRival { version, error },
            CommitReply::File(FileReply::Found(found)),
        ) => if found {
            next == (CommitStage::DiscardingCopy { version })
        } else {
            failed(next, error)
        },
        (CommitStage::DiscardingCopy { version }, CommitReply::File(FileReply::Done(_))) => next
            == (CommitStage::HashingRival { version }),
        (CommitStage::HashingRival { version }, CommitReply::File(FileReply::Hashed(result))) => match result {
            Err(error) => failed(next, error),
            Ok(sha256) => if sha256 == request.expected_sha256 {
                next == (CommitStage::LoadingIndex { version })
            } else {
                next matches CommitStage::Ended { outcome: Err(CoreError::Validation(message)) }
                    && message@ == "existing backup object has an unexpected hash"@
            },
        },
        (CommitStage::LoadingIndex { version }, CommitReply::Index(result)) => match result {
            Err(error) => failed(next, error),
            Ok(loaded) => {
                &&& next matches CommitStage::SavingIndex { index, record }
                &&& is_record_of(root, request, version, record)
                &&& index.records@ == with_backup(loaded.records@, record)
            },
        },
        (
            CommitStage::SavingIndex { index: _, record },
            CommitReply::File(FileReply::Done(result)),
        ) => match result {
            Err(error) => failed(next, error),
            Ok(_) => next == (CommitStage::Ended { outcome: Ok(record) }),
        },
        _ => next == stage,
    }
}

fn find_copy(records: &Vec<BackupRecord>, record: &BackupRecord) -> (at: usize)
    ensures
        at == copy_position(records@, record.sha256, record.original_path@),
        at <= records.len(),
{
    let mut found: usize = 0;
    let mut at: usize = 0;
    while at < records.len()
        invariant
            at <= records.len(),
            found <= at,
            found == copy_position(
                records@.take(at as int),
                record.sha256,
                record.original_path@,
            ),
        decreases records.len() - at,
    {
        proof {
            assert(records@.take(at + 1).drop_last() =~= records@.take(at as int));
        }
        if found == at && !(same_hash(&records[at].sha256, &record.sha256)
            && records[at].original_path.same(&record.original_path)) {
            found = at + 1;
        }
        at += 1;
    }
    proof {
        assert(records@.take(at as int) =~= records@);
    }
    found
}

impl BackupIndex {
    /// Lists `record`, in place of the record about the same content of the
    /// same file if there is one.
    pub fn upsert(&mut self, record: BackupRecord)
        ensures
            final(self).records@ == with_backup(old(self).records@, record),
    {
        let at = find_copy(&self.records, &record);
        if at < self.records.len() {
            self.records.set(at, record);
        } else {
            self.records.push(record);
        }
    }
}

impl BackupStore {
    /// The store below `root`.
    pub fn new(root: FilePath) -> (store: BackupStore)
        ensures
            store.root == root,
    {
        BackupStore { root }
    }

    /// The directory of the stored contents.
    pub fn objects_path(&self) -> (path: FilePath)
        ensures
            path@ == objects_of(self.root@),
    {
        self.root.join("objects")
    }

    /// Where the content with the digest `sha256` is stored.
    pub fn object_path(&self, sha256: &[u8; 32]) -> (path: FilePath)
        ensures
            path@ == object_of(self.root@, *sha256),
    {
        let name = hex_hash(sha256);
        self.objects_path().join(&name)
    }

    fn partial_path(&self, sha256: &[u8; 32]) -> (path: FilePath)
        ensures
            path@ == partial_of(self.root@, *sha256),
    {
        let object = self.object_path(sha256);
        FilePath { text: join_two(&object.text, ".partial") }
    }

    /// Where the index is stored.
    pub fn index_path(&self) -> (path: FilePath)
        ensures
            path@ == joined(self.root@, "index.json"@),
    {
        self.root.join("index.json")
    }

    /// The index that was read, or an empty one if there was no file. A file of
    /// another version is refused.
    pub fn load_index(&self, read: Option<Result<Envelope<BackupIndex>, CoreError>>) -> (index: Result<
        BackupIndex,
        CoreError,
    >)
        ensures
            match read {
                Some(result) => is_unsealed(result, BACKUP_SCHEMA_VERSION, index),
                None => index matches Ok(index) && index.records.len() == 0,
            },
    {
        match read {
            Some(result) => unseal(result, BACKUP_SCHEMA_VERSION),
            None => Ok(BackupIndex { records: Vec::new() }),
        }
    }

    /// What a commit asks for next.
    pub fn action(&self, request: &BackupRequest, stage: &CommitStage) -> (action: CommitAction)
        ensures
            asks(self.root@, *request, *stage, action),
    {
        match stage {
            CommitStage::Inspecting => CommitAction::File(
                FileAction::Inspect { path: request.original.clone() },
            ),
            CommitStage::CreatingDirectory { version: _ } => CommitAction::File(
                FileAction::CreateDirectory { path: self.objects_path() },
            ),
            CommitStage::LookingUp { version: _ } => CommitAction::File(
                FileAction::Look { path: self.object_path(&request.expected_sha256) },
            ),
            CommitStage::Copying { version: _ } => CommitAction::File(
                FileAction::Copy {
                    from: request.original.clone(),
                    to: self.partial_path(&request.expected_sha256),
                    sha256: request.expected_sha256,
                },
            ),
            CommitStage::Renaming { version: _ } => CommitAction::File(
                FileAction::Rename {
                    from: self.partial_path(&request.expected_sha256),
                    to: self.object_path(&request.expected_sha256),
                },
            ),
            CommitStage::LookingForRival { version: _, error: _ } => CommitAction::File(
                FileAction::Look { path: self.object_path(&request.expected_sha256) },
            ),
            CommitStage::DiscardingCopy { version: _ } => CommitAction::File(
                FileAction::Remove { path: self.partial_path(&request.expected_sha256) },
            ),
            CommitStage::HashingRival { version: _ } => CommitAction::File(
                FileAction::Hash { path: self.object_path(&request.expected_sha256) },
            ),
            CommitStage::LoadingIndex { version: _ } => CommitAction::LoadIndex,
            CommitStage::SavingIndex { index: _, record: _ } => CommitAction::SaveIndex,
            CommitStage::Ended { outcome: _ } => CommitAction::Rest,
        }
    }

    /// The stage that `reply` leads to: commits an immutable, content-addressed
    /// backup and lists it.
    pub fn commit(&self, request: &BackupRequest, stage: CommitStage, reply: CommitReply) -> (next:
        CommitStage)
        ensures
            commit_follows(self.root@, *request, stage, reply, next),
    {
        match (stage, reply) {
            (CommitStage::Inspecting, CommitReply::File(FileReply::Inspected(result))) => match result {
                Err(error) => CommitStage::Ended { outcome: Err(error) },
                Ok(metadata) => if same_hash(&metadata.sha256, &request.expected_sha256) {
                    CommitStage::CreatingDirectory { version: metadata.version }
                } else {
                    CommitStage::Ended { outcome: Err(CoreError::StalePlan) }
                },
            },
            (
                CommitStage::CreatingDirectory { version },
                CommitReply::File(FileReply::Done(result)),
            ) => match result {
                Err(error) => CommitStage::Ended { outcome: Err(error) },
                Ok(_) => CommitStage::LookingUp { version },
            },
            (CommitStage::LookingUp { version }, CommitReply::File(FileReply::Found(found))) => {
                if found {
                    CommitStage::LoadingIndex { version }
                } else {
                    CommitStage::Copying { version }
                }
            },
            (CommitStage::Copying { version }, CommitReply::File(FileReply::Done(result))) => match result {
                Err(error) => CommitStage::Ended { outcome: Err(error) },
                Ok(_) => CommitStage::Renaming { version },
            },
            (CommitStage::Renaming { version }, CommitReply::File(FileReply::Done(result))) => match result {
                Err(error) => CommitStage::LookingForRival { version, error },
                Ok(_) => CommitStage::LoadingIndex { version },
            },
            (
                CommitStage::LookingForRival { version, error },
                CommitReply::File(FileReply::Found(found)),
            ) => if found {
                CommitStage::DiscardingCopy { version }
            } else {
                CommitStage::Ended { outcome: Err(error) }
            },
            (CommitStage::DiscardingCopy { version }, CommitReply::File(FileReply::Done(_))) => {
                CommitStage::HashingRival { version }
            },
            (CommitStage::HashingRival { version }, CommitReply::File(FileReply::Hashed(result))) => match result {
                Err(error) => CommitStage::Ended { outcome: Err(error) },
                Ok(sha256) => if same_hash(&sha256, &request.expected_sha256) {
                    CommitStage::LoadingIndex { version }
                } else {
                    CommitStage::Ended {
                        outcome: Err(refused("existing backup object has an unexpected hash")),
                    }
                },
            },
            (CommitStage::LoadingIndex { version }, CommitReply::Index(result)) => match result {
                Err(error) => CommitStage::Ended { outcome: Err(error) },
                Ok(loaded) => {
                    let record = BackupRecord {
                        sha256: request.expected_sha256,
                        content_path: self.object_path(&request.expected_sha256),
                        original_path: request.original.clone(),
                        version,
                        created_unix: request.created_unix,
                    };
                    let mut index = loaded;
                    index.upsert(record.clone());
                    CommitStage::SavingIndex { index, record }
                },
            },
            (
                CommitStage::SavingIndex { index: _, record },
                CommitReply::File(FileReply::Done(result)),
            ) => match result {
                Err(error) => CommitStage::Ended { outcome: Err(error) },
                Ok(_) => CommitStage::Ended { outcome: Ok(record) },
            },
            (stage, _) => stage,
        }
    }
}

/// A file that changed since the plan was made is not copied: the commit ends
/// as soon as its digest is known.
pub proof fn stale_files_are_not_backed_up(
    root: Seq<char>,
    request: BackupRequest,
    metadata: crate::model::DllMetadata,
    next: CommitStage,
)
    requires
        metadata.sha256 != request.expected_sha256,
        commit_follows(
            root,
            request,
            CommitStage::Inspecting,
            CommitReply::File(FileReply::Inspected(Ok(metadata))),
            next,
        ),
    ensures
        failed(next, CoreError::StalePlan),
{
}

/// A commit that succeeds returns the record that it listed, so the index it
/// saved gives that record back.
pub proof fn a_successful_commit_is_listed(
    root: Seq<char>,
    request: BackupRequest,
    version: Option<DllVersion>,
    loaded: BackupIndex,
    saving: CommitStage,
    end: CommitStage,
)
    requires
        commit_follows(
            root,
            request,
            CommitStage::LoadingIndex { version },
            CommitReply::Index(Ok(loaded)),
            saving,
        ),
        commit_follows(root, request, saving, CommitReply::File(FileReply::Done(Ok(()))), end),
    ensures
        saving matches CommitStage::SavingIndex { index, record } && end == (CommitStage::Ended {
            outcome: Ok(record),
        }) && is_record_of(root, request, version, record) && backup_as(
            index.records@,
            request.expected_sha256,
            request.original@,
        ) == Some(record),
{
    if let CommitStage::SavingIndex { index, record } = saving {
        committed_backups_are_found(loaded.records@, record);
    }
}

/// What is known of the content that a record of the index points to.
#[derive(Debug, PartialEq, Eq)]
pub struct BackupCheck {
    pub record: BackupRecord,
    /// The path of the file that was backed up, as the platform spells it.
    pub shown: String,
    pub hash: Result<[u8; 32], CoreError>,
    pub trust: Result<TrustReport, CoreError>,
}

/// Why a backup cannot be offered: its content is not what was backed up, or
/// NVIDIA did not sign it.
pub open spec fn backup_fault(check: BackupCheck) -> Option<Seq<char>> {
    match (check.hash, check.trust) {
        (Err(error), _) => Some(error_text(error)),
        (Ok(hash), _) if hash != check.record.sha256 => Some(
            "backup object has an unexpected hash"@,
        ),
        (_, Err(error)) => Some(error_text(error)),
        (_, Ok(report)) => if report.signature == SignatureStatus::Trusted && nvidia_signature(
            report.signer,
        ) {
            None
        } else {
            Some("backup failed NVIDIA trust validation"@)
        },
    }
}

/// Whether a backup was accepted although revocation could not be checked.
pub open spec fn accepted_offline(check: BackupCheck) -> bool {
    backup_fault(check) is None && (check.trust matches Ok(report) && report.revocation
        == RevocationStatus::UnavailableFallback)
}

/// The backups that can be offered, in the order of the index.
pub open spec fn usable_backups(checks: Seq<BackupCheck>) -> Seq<BackupRecord>
    decreases checks.len(),
{
    if checks.len() == 0 {
        Seq::empty()
    } else {
        let before = usable_backups(checks.drop_last());
        if backup_fault(checks.last()) is None {
            before.push(checks.last().record)
        } else {
            before
        }
    }
}

/// A backup that is not offered.
pub struct RejectionModel {
    pub record: BackupRecord,
    pub shown: Seq<char>,
    pub reason: Seq<char>,
}

/// The backups that cannot be offered, each with the reason.
pub open spec fn rejected_backups(checks: Seq<BackupCheck>) -> Seq<RejectionModel>
    decreases checks.len(),
{
    if checks.len() == 0 {
        Seq::empty()
    } else {
        let before = rejected_backups(checks.drop_last());
        match backup_fault(checks.last()) {
            Some(reason) => before.push(
                RejectionModel {
                    record: checks.last().record,
                    shown: checks.last().shown@,
                    reason,
                },
            ),
            None => before,
        }
    }
}

/// How many backups were accepted although revocation could not be checked.
pub open spec fn offline_backups(checks: Seq<BackupCheck>) -> nat
    decreases checks.len(),
{
    if checks.len() == 0 {
        0
    } else {
        offline_backups(checks.drop_last()) + if accepted_offline(checks.last()) {
            1nat
        } else {
            0nat
        }
    }
}

/// Rejections without their containers.
pub open spec fn rejection_views(rejected: Seq<RejectedBackup>) -> Seq<RejectionModel> {
    rejected.map_values(
        |backup: RejectedBackup|
            RejectionModel {
                record: backup.record,
                shown: backup.shown@,
                reason: backup.reason@,
            },
    )
}

fn find_backup_fault(check: &BackupCheck) -> (fault: Option<String>)
    ensures
        match backup_fault(*check) {
            Some(reason) => fault matches Some(text) && text@ == reason,
            None => fault is None,
        },
{
    match &check.hash {
        Err(error) => {
            return Some(error.to_text());
        },
        Ok(hash) => {
            if !same_hash(hash, &check.record.sha256) {
                return Some("backup object has an unexpected hash".to_owned());
            }
        },
    }
    match &check.trust {
        Err(error) => Some(error.to_text()),
        Ok(report) => if report.signature == SignatureStatus::Trusted && is_nvidia_signature(
            &report.signer,
        ) {
            None
        } else {
            Some("backup failed NVIDIA trust validation".to_owned())
        },
    }
}

/// Sorts the backups of the index into those that can be offered and those that
/// cannot.
pub fn load_report(checks: Vec<BackupCheck>) -> (report: BackupLoadReport)
    ensures
        report.usable@ == usable_backups(checks@),
        rejection_views(report.rejected@) == rejected_backups(checks@),
        report.offline_revocation_fallbacks == offline_backups(checks@),
{
    let mut usable: Vec<BackupRecord> = Vec::new();
    let mut rejected: Vec<RejectedBackup> = Vec::new();
    let mut offline: usize = 0;
    let mut at: usize = 0;
    while at < checks.len()
        invariant
            at <= checks.len(),
            usable@ == usable_backups(checks@.take(at as int)),
            rejection_views(rejected@) == rejected_backups(checks@.take(at as int)),
            offline == offline_backups(checks@.take(at as int)),
            offline <= at,
        decreases checks.len() - at,
    {
        let check = &checks[at];
        proof {
            assert(checks@.take(at + 1).drop_last() =~= checks@.take(at as int));
            assert(checks@.take(at + 1).last() == checks@[at as int]);
        }
        match find_backup_fault(check) {
            Some(reason) => {
                let ghost before = rejected@;
                rejected.push(
                    RejectedBackup {
                        record: check.record.clone(),
                        shown: check.shown.clone(),
                        reason,
                    },
                );
                proof {
                    assert(rejection_views(rejected@) =~= rejection_views(before).push(
                        RejectionModel {
                            record: check.record,
                            shown: check.shown@,
                            reason: reason@,
                        },
                    ));
                }
            },
            None => {
                usable.push(check.record.clone());
                if let Ok(report) = &check.trust {
                    if report.revocation == RevocationStatus::UnavailableFallback {
                        offline = offline + 1;
                    }
                }
            },
        }
        at = at + 1;
    }
    proof {
        assert(checks@.take(checks.len() as int) =~= checks@);
    }
    BackupLoadReport { usable, rejected, offline_revocation_fallbacks: offline }
}

/// Every backup of the index is either offered or rejected.
pub proof fn backups_are_offered_or_rejected(checks: Seq<BackupCheck>)
    ensures
        usable_backups(checks).len() + rejected_backups(checks).len() == checks.len(),
        offline_backups(checks) <= usable_backups(checks).len(),
    decreases checks.len(),
{
    if checks.len() > 0 {
        backups_are_offered_or_rejected(checks.drop_last());
    }
}

/// Whether a backup can be offered: its content was read and is what was backed
/// up, and its signature was checked, is trusted and is by NVIDIA.
pub open spec fn is_genuine(check: BackupCheck) -> bool {
    &&& check.hash matches Ok(hash) && hash == check.record.sha256
    &&& check.trust matches Ok(report) && report.signature == SignatureStatus::Trusted
        && nvidia_signature(report.signer)
}

/// Exactly the backups that are genuine are offered, in the order of the index.
pub proof fn every_genuine_backup_is_offered(checks: Seq<BackupCheck>) -> (offered: Seq<int>)
    ensures
        picks(offered, checks.len() as int, |i: int| is_genuine(checks[i])),
        usable_backups(checks).len() == offered.len(),
        forall|k: int|
            #![trigger usable_backups(checks)[k]]
            0 <= k < offered.len() ==> usable_backups(checks)[k] == checks[offered[k]].record,
    decreases checks.len(),
{
    let here = |i: int| is_genuine(checks[i]);
    if checks.len() == 0 {
        picks_nothing(here);
        Seq::empty()
    } else {
        let shorter = checks.drop_last();
        let before = every_genuine_backup_is_offered(shorter);
        picks_grow(before, shorter.len() as int, |i: int| is_genuine(shorter[i]), here)
    }
}

/// Every other backup is rejected, in the order of the index, and for the first
/// thing that is wrong with it: that its content could not be read, that it is
/// not what was backed up, that its signature could not be checked, or that
/// NVIDIA did not sign it.
pub proof fn every_other_backup_is_rejected(checks: Seq<BackupCheck>) -> (rejected: Seq<int>)
    ensures
        picks(rejected, checks.len() as int, |i: int| !is_genuine(checks[i])),
        rejected_backups(checks).len() == rejected.len(),
        forall|k: int|
            #![trigger rejected_backups(checks)[k]]
            0 <= k < rejected.len() ==> {
                let check = checks[rejected[k]];
                let told = rejected_backups(checks)[k];
                &&& told.record == check.record
                &&& told.shown == check.shown@
                &&& check.hash matches Err(error) ==> told.reason == error_text(error)
                &&& check.hash matches Ok(hash) ==> hash != check.record.sha256 ==> told.reason
                    == "backup object has an unexpected hash"@
                &&& check.hash == Ok::<[u8; 32], CoreError>(check.record.sha256) ==> (check.trust matches Err(
                    error,
                ) ==> told.reason == error_text(error))
                &&& check.hash == Ok::<[u8; 32], CoreError>(check.record.sha256) && check.trust is Ok
                    ==> told.reason == "backup failed NVIDIA trust validation"@
            },
    decreases checks.len(),
{
    let here = |i: int| !is_genuine(checks[i]);
    if checks.len() == 0 {
        picks_nothing(here);
        Seq::empty()
    } else {
        let shorter = checks.drop_last();
        let before = every_other_backup_is_rejected(shorter);
        picks_grow(before, shorter.len() as int, |i: int| !is_genuine(shorter[i]), here)
    }
}

/// A backup counts as accepted offline exactly where it is genuine and
/// revocation could not be checked.
pub proof fn offline_backups_are_counted(checks: Seq<BackupCheck>) -> (offline: Seq<int>)
    ensures
        picks(
            offline,
            checks.len() as int,
            |i: int|
                is_genuine(checks[i])
                    && checks[i].trust->Ok_0.revocation == RevocationStatus::UnavailableFallback,
        ),
        offline_backups(checks) == offline.len(),
    decreases checks.len(),
{
    let here = |i: int| is_genuine(checks[i]) && checks[i].trust->Ok_0.revocation == RevocationStatus::UnavailableFallback;
    if checks.len() == 0 {
        picks_nothing(here);
        Seq::empty()
    } else {
        let shorter = checks.drop_last();
        let before = offline_backups_are_counted(shorter);
        picks_grow(
            before,
            shorter.len() as int,
            |i: int|
                is_genuine(shorter[i])
                    && shorter[i].trust->Ok_0.revocation == RevocationStatus::UnavailableFallback,
            here,
        )
    }
}

/// A commit reads the original file, and writes nothing but the content that it
/// stores: a copy beside its place, which takes that place when it is complete,
/// under the name of its digest.
pub proof fn commits_write_only_their_object(
    root: Seq<char>,
    request: BackupRequest,
    stage: CommitStage,
    action: CommitAction,
)
    requires
        asks(root, request, stage, action),
    ensures
        ({
            let object = joined(joined(root, "objects"@), hex(request.expected_sha256@));
            match action {
                CommitAction::File(FileAction::Inspect { path }) => path == request.original
                    && stage == CommitStage::Inspecting,
                CommitAction::File(FileAction::CreateDirectory { path }) => path@ == joined(
                    root,
                    "objects"@,
                ),
                CommitAction::File(FileAction::Look { path }) => path@ == object,
                CommitAction::File(FileAction::Hash { path }) => path@ == object,
                CommitAction::File(FileAction::Copy { from, to, sha256 }) => from
                    == request.original && to@ == object + ".partial"@ && sha256
                    == request.expected_sha256,
                CommitAction::File(FileAction::Rename { from, to }) => from@ == object
                    + ".partial"@ && to@ == object,
                CommitAction::File(FileAction::Remove { path }) => path@ == object + ".partial"@,
                CommitAction::File(_) => false,
                CommitAction::LoadIndex => stage is LoadingIndex,
                CommitAction::SaveIndex => stage is SavingIndex,
                CommitAction::Rest => stage is Ended,
            }
        }),
{
}

/// Whether `stages` are the stages that a commit goes through as `replies` come
/// in.
pub open spec fn is_commit_run(
    root: Seq<char>,
    request: BackupRequest,
    replies: Seq<CommitReply>,
    stages: Seq<CommitStage>,
) -> bool {
    &&& stages.len() == replies.len() + 1
    &&& stages[0] == CommitStage::Inspecting
    &&& forall|i: int|
        0 <= i < replies.len() ==> commit_follows(
            root,
            request,
            stages[i],
            #[trigger] replies[i],
            stages[i + 1],
        )
}

/// A commit of which every step goes well lists and returns a record of the
/// file's content: its digest, where it is stored, which file it came from, its
/// version and the time. So does one that finds the content stored already.
pub proof fn a_smooth_commit_succeeds(
    root: Seq<char>,
    request: BackupRequest,
    metadata: crate::model::DllMetadata,
    loaded: BackupIndex,
    stages: Seq<CommitStage>,
    shorter: Seq<CommitStage>,
)
    requires
        metadata.sha256 == request.expected_sha256,
        is_commit_run(
            root,
            request,
            seq![
                CommitReply::File(FileReply::Inspected(Ok(metadata))),
                CommitReply::File(FileReply::Done(Ok(()))),
                CommitReply::File(FileReply::Found(false)),
                CommitReply::File(FileReply::Done(Ok(()))),
                CommitReply::File(FileReply::Done(Ok(()))),
                CommitReply::Index(Ok(loaded)),
                CommitReply::File(FileReply::Done(Ok(()))),
            ],
            stages,
        ),
        is_commit_run(
            root,
            request,
            seq![
                CommitReply::File(FileReply::Inspected(Ok(metadata))),
                CommitReply::File(FileReply::Done(Ok(()))),
                CommitReply::File(FileReply::Found(true)),
                CommitReply::Index(Ok(loaded)),
                CommitReply::File(FileReply::Done(Ok(()))),
            ],
            shorter,
        ),
    ensures
        forall|end: CommitStage|
            #![trigger end is Ended]
            end == stages.last() || end == shorter.last() ==> {
                &&& end matches CommitStage::Ended { outcome: Ok(record) }
                &&& record.sha256 == request.expected_sha256
                &&& record.content_path@ == joined(
                    joined(root, "objects"@),
                    hex(request.expected_sha256@),
                )
                &&& record.original_path == request.original
                &&& record.version == metadata.version
                &&& record.created_unix == request.created_unix
            },
        stages[6] matches CommitStage::SavingIndex { index, record } && backup_as(
            index.records@,
            request.expected_sha256,
            request.original@,
        ) == Some(record),
{
    let replies = seq![
        CommitReply::File(FileReply::Inspected(Ok(metadata))),
        CommitReply::File(FileReply::Done(Ok(()))),
        CommitReply::File(FileReply::Found(false)),
        CommitReply::File(FileReply::Done(Ok(()))),
        CommitReply::File(FileReply::Done(Ok(()))),
        CommitReply::Index(Ok(loaded)),
        CommitReply::File(FileReply::Done(Ok(()))),
    ];
    let fewer = seq![
        CommitReply::File(FileReply::Inspected(Ok(metadata))),
        CommitReply::File(FileReply::Done(Ok(()))),
        CommitReply::File(FileReply::Found(true)),
        CommitReply::Index(Ok(loaded)),
        CommitReply::File(FileReply::Done(Ok(()))),
    ];
    assert(commit_follows(root, request, stages[0], replies[0], stages[1]));
    assert(commit_follows(root, request, stages[1], replies[1], stages[2]));
    assert(commit_follows(root, request, stages[2], replies[2], stages[3]));
    assert(commit_follows(root, request, stages[3], replies[3], stages[4]));
    assert(commit_follows(root, request, stages[4], replies[4], stages[5]));
    assert(commit_follows(root, request, stages[5], replies[5], stages[6]));
    assert(commit_follows(root, request, stages[6], replies[6], stages[7]));
    assert(commit_follows(root, request, shorter[0], fewer[0], shorter[1]));
    assert(commit_follows(root, request, shorter[1], fewer[1], shorter[2]));
    assert(commit_follows(root, request, shorter[2], fewer[2], shorter[3]));
    assert(commit_follows(root, request, shorter[3], fewer[3], shorter[4]));
    assert(commit_follows(root, request, shorter[4], fewer[4], shorter[5]));
    if let CommitStage::SavingIndex { index, record } = stages[6] {
        committed_backups_are_found(loaded.records@, record);
    }
}

} // verus!
