//! DLLs that the user imported: validation, storage and their place in the
//! catalog.

use crate::backups::{object_of, objects_of};
use crate::digest::{hex, hex_hash, hex_is_injective, same_hash};
use crate::files::{is_unsealed, unseal, Envelope, FileAction, FileReply};
use crate::kinds::{classify_path, path_kind};
use crate::lists::{picks, picks_grow, picks_nothing};
use crate::model::{CatalogDll, DllMetadata, DllVersion, FileName, ReleaseId, SignatureStatus};
use crate::paths::{has_name, joined, last_part, FilePath};
use crate::text::{begins, join_three, join_two, starts_with};
use crate::traits::{refused, CoreError};
use crate::trust::{is_nvidia_signer, nvidia_signature, TrustPolicy, TrustReport};
use vstd::prelude::*;

verus! {

/// The largest DLL that can be imported: 256 MiB.
pub const MAX_IMPORTED_DLL_BYTES: u64 = 268435456;

/// The version of the index format.
pub const IMPORT_SCHEMA_VERSION: u32 = 1;

/// An imported DLL.
#[derive(Debug, PartialEq, Eq)]
pub struct ImportedDllRecord {
    pub file_name: FileName,
    pub version: DllVersion,
    pub sha256: [u8; 32],
    pub signer: String,
    pub imported_unix: i64,
    pub content_path: FilePath,
}

impl Clone for ImportedDllRecord {
    fn clone(&self) -> (copy: ImportedDllRecord)
        ensures
            copy == *self,
    {
        ImportedDllRecord {
            file_name: self.file_name.clone(),
            version: self.version,
            sha256: self.sha256,
            signer: self.signer.clone(),
            imported_unix: self.imported_unix,
            content_path: self.content_path.clone(),
        }
    }
}

/// All imported DLLs.
#[derive(Debug, PartialEq, Eq)]
pub struct ImportIndex {
    pub records: Vec<ImportedDllRecord>,
}

/// Where imported DLLs are kept.
#[derive(Debug, PartialEq, Eq)]
pub struct ImportStore {
    pub root: FilePath,
}

/// The identifier that a release made of one imported DLL has.
pub open spec fn import_id(sha256: [u8; 32]) -> Seq<char> {
    "import:"@ + hex(sha256@)
}

/// Whether an identifier belongs to an imported DLL.
pub open spec fn is_import_id(id: Seq<char>) -> bool {
    begins(id, "import:"@)
}

/// The release identifier of the imported DLL with the digest `hash`.
pub fn imported_release_id(hash: [u8; 32]) -> (id: ReleaseId)
    ensures
        id@ == import_id(hash),
        is_import_id(id@),
{
    let digits = hex_hash(&hash);
    proof {
        import_ids_are_recognized(hash);
    }
    ReleaseId(join_two("import:", &digits))
}

/// Whether a release is an imported DLL.
pub fn is_imported_release(id: &ReleaseId) -> (imported: bool)
    ensures
        imported == is_import_id(id@),
{
    starts_with(&id.0, "import:")
}

/// Every identifier made for an import is recognized as one.
pub proof fn import_ids_are_recognized(sha256: [u8; 32])
    ensures
        is_import_id(import_id(sha256)),
{
    let prefix = "import:"@;
    assert(import_id(sha256).subrange(0, prefix.len() as int) =~= prefix);
}

/// Different contents have different identifiers.
pub proof fn import_ids_are_distinct(left: [u8; 32], right: [u8; 32])
    requires
        import_id(left) == import_id(right),
    ensures
        left == right,
{
    let prefix = "import:"@;
    assert(import_id(left).skip(prefix.len() as int) =~= hex(left@));
    assert(import_id(right).skip(prefix.len() as int) =~= hex(right@));
    hex_is_injective(left@, right@);
    assert forall|i: int| 0 <= i < 32 implies left[i] == right[i] by {
        assert(left@[i] == right@[i]);
    }
    assert(left =~= right);
}

/// The entry of the catalog that an imported DLL makes.
pub open spec fn is_entry_of(record: ImportedDllRecord, dll: CatalogDll) -> bool {
    &&& dll.file_name == record.file_name
    &&& dll.version == record.version
    &&& dll.sha256 == record.sha256
    &&& dll.source == record.content_path
    &&& dll.release@ == import_id(record.sha256)
}

/// The imported DLLs as entries of the catalog, in their order.
pub fn imported_catalog_dlls(index: &ImportIndex) -> (dlls: Vec<CatalogDll>)
    ensures
        dlls.len() == index.records.len(),
        forall|i: int|
            0 <= i < dlls.len() ==> is_entry_of(index.records@[i], #[trigger] dlls@[i]),
{
    let mut dlls: Vec<CatalogDll> = Vec::new();
    let mut at: usize = 0;
    while at < index.records.len()
        invariant
            at <= index.records.len(),
            dlls.len() == at,
            forall|i: int| 0 <= i < at ==> is_entry_of(index.records@[i], #[trigger] dlls@[i]),
        decreases index.records.len() - at,
    {
        let record = &index.records[at];
        dlls.push(CatalogDll {
            file_name: record.file_name.clone(),
            version: record.version,
            sha256: record.sha256,
            source: record.content_path.clone(),
            release: imported_release_id(record.sha256),
        });
        at += 1;
    }
    dlls
}

/// The position of the first record with the digest `sha256`, or the number of
/// records if there is none.
pub open spec fn import_position(records: Seq<ImportedDllRecord>, sha256: [u8; 32]) -> int
    decreases records.len(),
{
    if records.len() == 0 {
        0
    } else {
        let before = import_position(records.drop_last(), sha256);
        if before < records.len() - 1 {
            before
        } else if records.last().sha256 == sha256 {
            records.len() - 1
        } else {
            records.len() as int
        }
    }
}

/// The index after `record` was imported: in place of the record with the same
/// digest, or at the end.
pub open spec fn with_import(
    records: Seq<ImportedDllRecord>,
    record: ImportedDllRecord,
) -> Seq<ImportedDllRecord> {
    let at = import_position(records, record.sha256);
    if at < records.len() {
        records.update(at, record)
    } else {
        records.push(record)
    }
}

/// The index after the DLL with the digest `sha256` was removed.
pub open spec fn without_import(records: Seq<ImportedDllRecord>, sha256: [u8; 32]) -> Seq<
    ImportedDllRecord,
>
    decreases records.len(),
{
    if records.len() == 0 {
        records
    } else if records.last().sha256 == sha256 {
        without_import(records.drop_last(), sha256)
    } else {
        without_import(records.drop_last(), sha256).push(records.last())
    }
}

/// Whether no digest is listed twice.
pub open spec fn hashes_differ(records: Seq<ImportedDllRecord>) -> bool {
    forall|i: int, j: int|
        0 <= i < j < records.len() ==> (#[trigger] records[i]).sha256 != (
        #[trigger] records[j]).sha256
}

proof fn import_position_facts(records: Seq<ImportedDllRecord>, sha256: [u8; 32])
    ensures
        ({
            let at = import_position(records, sha256);
            &&& 0 <= at <= records.len()
            &&& at < records.len() ==> records[at].sha256 == sha256
            &&& forall|i: int| 0 <= i < at ==> (#[trigger] records[i]).sha256 != sha256
        }),
    decreases records.len(),
{
    if records.len() > 0 {
        let shorter = records.drop_last();
        import_position_facts(shorter, sha256);
        let at = import_position(records, sha256);
        assert forall|i: int| 0 <= i < at implies (#[trigger] records[i]).sha256 != sha256 by {
            if i < shorter.len() {
                assert(shorter[i] == records[i]);
            }
        }
    }
}

/// Importing lists a content once, however often it is imported, and with what
/// the last import found.
pub proof fn imports_list_once(records: Seq<ImportedDllRecord>, record: ImportedDllRecord)
    requires
        hashes_differ(records),
    ensures
        hashes_differ(with_import(records, record)),
        with_import(records, record).contains(record),
        with_import(with_import(records, record), record) == with_import(records, record),
{
    let at = import_position(records, record.sha256);
    import_position_facts(records, record.sha256);
    let after = with_import(records, record);
    assert(after[at] == record);
    assert forall|i: int, j: int| 0 <= i < j < after.len() implies (#[trigger] after[i]).sha256
        != (#[trigger] after[j]).sha256 by {
        if i != at {
            assert(after[i] == records[i]);
        }
        if j != at {
            assert(after[j] == records[j]);
        }
        if i == at {
            assert(records[i].sha256 != records[j].sha256);
        }
    }
    import_position_facts(after, record.sha256);
    let again = import_position(after, record.sha256);
    if again != at {
        if again < at {
            assert(after[again].sha256 != after[at].sha256);
        } else {
            assert(after[at].sha256 != record.sha256);
        }
    }
    assert(after.update(at, record) =~= after);
}

/// A removed DLL is listed no more, and no other is lost.
pub proof fn removal_takes_one_content(records: Seq<ImportedDllRecord>, sha256: [u8; 32])
    ensures
        forall|i: int|
            0 <= i < without_import(records, sha256).len() ==> (#[trigger] without_import(
                records,
                sha256,
            )[i]).sha256 != sha256,
        forall|i: int|
            0 <= i < records.len() && (#[trigger] records[i]).sha256 != sha256 ==> without_import(
                records,
                sha256,
            ).contains(records[i]),
    decreases records.len(),
{
    if records.len() > 0 {
        let shorter = records.drop_last();
        let rest = without_import(shorter, sha256);
        let all = without_import(records, sha256);
        removal_takes_one_content(shorter, sha256);
        assert forall|i: int|
            0 <= i < records.len() && (#[trigger] records[i]).sha256 != sha256 implies all.contains(
            records[i],
        ) by {
            if i < shorter.len() {
                assert(shorter[i] == records[i]);
                assert(rest.contains(shorter[i]));
                let j = choose|j: int| 0 <= j < rest.len() && rest[j] == shorter[i];
                assert(all[j] == records[i]);
            } else {
                assert(all.last() == records[i]);
            }
        }
    }
}

impl ImportIndex {
    /// Lists `record`, in place of the record with the same digest if there is
    /// one.
    pub fn upsert(&mut self, record: ImportedDllRecord)
        ensures
            final(self).records@ == with_import(old(self).records@, record),
    {
        let mut found: usize = 0;
        let mut at: usize = 0;
        while at < self.records.len()
            invariant
                at <= self.records.len(),
                found <= at,
                self.records@ == old(self).records@,
                found == import_position(self.records@.take(at as int), record.sha256),
            decreases self.records.len() - at,
        {
            proof {
                assert(self.records@.take(at + 1).drop_last() =~= self.records@.take(at as int));
            }
            if found == at && !same_hash(&self.records[at].sha256, &record.sha256) {
                found = at + 1;
            }
            at += 1;
        }
        proof {
            assert(self.records@.take(at as int) =~= self.records@);
        }
        if found < self.records.len() {
            self.records.set(found, record);
        } else {
            self.records.push(record);
        }
    }

    /// Lists the DLL with the digest `sha256` no more.
    pub fn forget(&mut self, sha256: &[u8; 32])
        ensures
            final(self).records@ == without_import(old(self).records@, *sha256),
    {
        let ghost before = self.records@;
        let mut kept: Vec<ImportedDllRecord> = Vec::new();
        let mut at: usize = 0;
        while at < self.records.len()
            invariant
                at <= self.records.len(),
                self.records@ == before,
                kept@ == without_import(before.take(at as int), *sha256),
            decreases self.records.len() - at,
        {
            proof {
                assert(before.take(at + 1).drop_last() =~= before.take(at as int));
            }
            if !same_hash(&self.records[at].sha256, sha256) {
                kept.push(self.records[at].clone());
            }
            at += 1;
        }
        proof {
            assert(before.take(at as int) =~= before);
        }
        self.records = kept;
    }
}

/// An import that is about to be made.
#[derive(Debug, PartialEq, Eq)]
pub struct ImportRequest {
    pub source: FilePath,
    pub imported_unix: i64,
}

/// What the checks have found out about a DLL.
#[derive(Debug, PartialEq, Eq)]
pub struct ImportFacts {
    pub file_name: FileName,
    pub version: DllVersion,
    pub signer: String,
}

/// How far an import has come.
#[derive(Debug, PartialEq, Eq)]
pub enum ImportStage {
    Measuring { file_name: FileName },
    Inspecting { file_name: FileName },
    Verifying { file_name: FileName, version: DllVersion },
    Hashing { facts: ImportFacts },
    CreatingDirectory { facts: ImportFacts, sha256: [u8; 32] },
    LookingUp { facts: ImportFacts, sha256: [u8; 32] },
    LookingForRemains { facts: ImportFacts, sha256: [u8; 32] },
    RemovingRemains { facts: ImportFacts, sha256: [u8; 32] },
    Copying { facts: ImportFacts, sha256: [u8; 32] },
    Renaming { facts: ImportFacts, sha256: [u8; 32] },
    LoadingIndex { facts: ImportFacts, sha256: [u8; 32] },
    SavingIndex { index: ImportIndex, record: ImportedDllRecord },
    Ended { outcome: Result<ImportedDllRecord, CoreError> },
}

/// What an import asks for next.
#[derive(Debug, PartialEq, Eq)]
pub enum ImportAction {
    File(FileAction),
    /// Load the index; answered by [`ImportReply::Index`].
    LoadIndex,
    /// Save the index that the stage holds; answered by [`FileReply::Done`].
    SaveIndex,
    /// Nothing: the import has ended.
    Rest,
}

/// What came of it.
#[derive(Debug, PartialEq, Eq)]
pub enum ImportReply {
    File(FileReply),
    Index(Result<ImportIndex, CoreError>),
}

/// Where a copy is written before it is complete.
pub open spec fn import_partial_of(root: Seq<char>, sha256: [u8; 32]) -> Seq<char> {
    joined(objects_of(root), ".import-"@ + hex(sha256@) + ".partial"@)
}

/// Whether an import has ended with a validation error of the given wording.
pub open spec fn import_refused(stage: ImportStage, wording: Seq<char>) -> bool {
    stage matches ImportStage::Ended { outcome: Err(CoreError::Validation(message)) } && message@
        == wording
}

/// Whether an import has failed with `error`.
pub open spec fn import_failed(stage: ImportStage, error: CoreError) -> bool {
    stage == (ImportStage::Ended { outcome: Err(error) })
}

/// Whether `stage` is where the import of the file at `source` starts: with
/// its name, before anything is read.
pub open spec fn import_starts(source: Seq<char>, stage: ImportStage) -> bool {
    if !has_name(source) {
        import_refused(stage, "import has no file name"@)
    } else if path_kind(source) is None {
        import_refused(stage, "file name is not a managed NVIDIA DLL"@)
    } else {
        stage matches ImportStage::Measuring { file_name: FileName::Unicode(name) } && name@
            == last_part(source)
    }
}

/// Whether `action` is the one that belongs to `stage`.
pub open spec fn import_asks(
    root: Seq<char>,
    request: ImportRequest,
    stage: ImportStage,
    action: ImportAction,
) -> bool {
    match stage {
        ImportStage::Measuring { file_name: _ } => action == ImportAction::File(
            FileAction::Measure { path: request.source },
        ),
        ImportStage::Inspecting { file_name: _ } => action == ImportAction::File(
            FileAction::Inspect { path: request.source },
        ),
        ImportStage::Verifying { file_name: _, version: _ } => action == ImportAction::File(
            FileAction::Verify { path: request.source, policy: TrustPolicy::Strict },
        ),
        ImportStage::Hashing { facts: _ } => action == ImportAction::File(
            FileAction::Hash { path: request.source },
        ),
        ImportStage::CreatingDirectory { facts: _, sha256: _ } => action matches ImportAction::File(
            FileAction::CreateDirectory { path },
        ) && path@ == objects_of(root),
        ImportStage::LookingUp { facts: _, sha256 } => action matches ImportAction::File(
            FileAction::Look { path },
        ) && path@ == object_of(root, sha256),
        ImportStage::LookingForRemains { facts: _, sha256 } => action matches ImportAction::File(
            FileAction::Look { path },
        ) && path@ == import_partial_of(root, sha256),
        ImportStage::RemovingRemains { facts: _, sha256 } => action matches ImportAction::File(
            FileAction::Remove { path },
        ) && path@ == import_partial_of(root, sha256),
        ImportStage::Copying { facts: _, sha256 } => action matches ImportAction::File(
            FileAction::Copy { from, to, sha256: expected },
        ) && from == request.source && to@ == import_partial_of(root, sha256) && expected == sha256,
        ImportStage::Renaming { facts: _, sha256 } => action matches ImportAction::File(
            FileAction::Rename { from, to },
        ) && from@ == import_partial_of(root, sha256) && to@ == object_of(root, sha256),
        ImportStage::LoadingIndex { facts: _, sha256: _ } => action == ImportAction::LoadIndex,
        ImportStage::SavingIndex { index: _, record: _ } => action == ImportAction::SaveIndex,
        ImportStage::Ended { outcome: _ } => action == ImportAction::Rest,
    }
}

/// Where an import stands after its file was inspected.
pub open spec fn after_inspection(
    file_name: FileName,
    metadata: DllMetadata,
    next: ImportStage,
) -> bool {
    if !metadata.x86_64 {
        import_refused(next, "import is not an x86-64 PE DLL"@)
    } else {
        match metadata.version {
            None => import_refused(next, "import has no version resource"@),
            Some(version) => next == (ImportStage::Verifying { file_name, version }),
        }
    }
}

/// Where an import stands after its signature was checked.
pub open spec fn after_verification(
    file_name: FileName,
    version: DllVersion,
    trust: TrustReport,
    next: ImportStage,
) -> bool {
    if trust.signature != SignatureStatus::Trusted {
        import_refused(next, "import signature is not trusted"@)
    } else if !nvidia_signature(trust.signer) {
        import_refused(next, "import is not signed by NVIDIA Corporation"@)
    } else {
        next == (ImportStage::Hashing {
            facts: ImportFacts { file_name, version, signer: trust.signer->0 },
        })
    }
}

/// Whether `record` is what an import records.
pub open spec fn is_import_record(
    root: Seq<char>,
    request: ImportRequest,
    facts: ImportFacts,
    sha256: [u8; 32],
    record: ImportedDllRecord,
) -> bool {
    &&& record.file_name == facts.file_name
    &&& record.version == facts.version
    &&& record.sha256 == sha256
    &&& record.signer == facts.signer
    &&& record.imported_unix == request.imported_unix
    &&& record.content_path@ == object_of(root, sha256)
}

/// Whether `next` is the stage that `reply` leads to from `stage`. A reply that
/// answers some other action changes nothing.
pub open spec fn import_follows(
    root: Seq<char>,
    request: ImportRequest,
    stage: ImportStage,
    reply: ImportReply,
    next: ImportStage,
) -> bool {
    match (stage, reply) {
        (ImportStage::Measuring { file_name }, ImportReply::File(FileReply::Measured(result))) => match result {
            Err(error) => import_failed(next, error),
            Ok(size) => if size > MAX_IMPORTED_DLL_BYTES {
                import_refused(next, "import exceeds the 256 MiB limit"@)
            } else {
                next == (ImportStage::Inspecting { file_name })
            },
        },
        (ImportStage::Inspecting { file_name }, ImportReply::File(FileReply::Inspected(result))) => match result {
            Err(error) => import_failed(next, error),
            Ok(metadata) => after_inspection(file_name, metadata, next),
        },
        (
            ImportStage::Verifying { file_name, version },
            ImportReply::File(FileReply::Verified(result)),
        ) => match result {
            Err(error) => import_failed(next, error),
            Ok(trust) => after_verification(file_name, version, trust, next),
        },
        (ImportStage::Hashing { facts }, ImportReply::File(FileReply::Hashed(result))) => match result {
            Err(error) => import_failed(next, error),
            Ok(sha256) => next == (ImportStage::CreatingDirectory { facts, sha256 }),
        },
        (
            ImportStage::CreatingDirectory { facts, sha256 },
            ImportReply::File(FileReply::Done(result)),
        ) => match result {
            Err(error) => import_failed(next, error),
            Ok(_) => next == (ImportStage::LookingUp { facts, sha256 }),
        },
        (ImportStage::LookingUp { facts, sha256 }, ImportReply::File(FileReply::Found(found))) => next
            == if found {
            ImportStage::LoadingIndex { facts, sha256 }
        } else {
            ImportStage::LookingForRemains { facts, sha256 }
        },
        (
            ImportStage::LookingForRemains { facts, sha256 },
            ImportReply::File(FileReply::Found(found)),
        ) => next == if found {
            ImportStage::RemovingRemains { facts, sha256 }
        } else {
            ImportStage::Copying { facts, sha256 }
        },
        (
            ImportStage::RemovingRemains { facts, sha256 },
            ImportReply::File(FileReply::Done(result)),
        ) => match result {
            Err(error) => import_failed(next, error),
            Ok(_) => next == (ImportStage::Copying { facts, sha256 }),
        },
        (ImportStage::Copying { facts, sha256 }, ImportReply::File(FileReply::Done(result))) => match result {
            Err(error) => import_failed(next, error),
            Ok(_) => next == (ImportStage::Renaming { facts, sha256 }),
        },
        (ImportStage::Renaming { facts, sha256 }, ImportReply::File(FileReply::Done(result))) => match result {
            Err(error) => import_failed(next, error),
            Ok(_) => next == (ImportStage::LoadingIndex { facts, sha256 }),
        },
        (ImportStage::LoadingIndex { facts, sha256 }, ImportReply::Index(result)) => match result {
            Err(error) => import_failed(next, error),
            Ok(loaded) => {
                &&& next matches ImportStage::SavingIndex { index, record }
                &&& is_import_record(root, request, facts, sha256, record)
                &&& index.records@ == with_import(loaded.records@, record)
            },
        },
        (
            ImportStage::SavingIndex { index: _, record },
            ImportReply::File(FileReply::Done(result)),
        ) => match result {
            Err(error) => import_failed(next, error),
            Ok(_) => next == (ImportStage::Ended { outcome: Ok(record) }),
        },
        _ => next == stage,
    }
}

fn refuse_import(wording: &str) -> (stage: ImportStage)
    ensures
        import_refused(stage, wording@),
{
    ImportStage::Ended { outcome: Err(refused(wording)) }
}

fn fail_import(error: CoreError) -> (stage: ImportStage)
    ensures
        import_failed(stage, error),
{
    ImportStage::Ended { outcome: Err(error) }
}

fn judge_inspection(file_name: FileName, metadata: DllMetadata) -> (next: ImportStage)
    ensures
        after_inspection(file_name, metadata, next),
{
    if !metadata.x86_64 {
        return refuse_import("import is not an x86-64 PE DLL");
    }
    match metadata.version {
        None => refuse_import("import has no version resource"),
        Some(version) => ImportStage::Verifying { file_name, version },
    }
}

fn judge_verification(file_name: FileName, version: DllVersion, trust: TrustReport) -> (next:
    ImportStage)
    ensures
        after_verification(file_name, version, trust, next),
{
    if trust.signature != SignatureStatus::Trusted {
        return refuse_import("import signature is not trusted");
    }
    match trust.signer {
        Some(signer) => if is_nvidia_signer(&signer) {
            ImportStage::Hashing { facts: ImportFacts { file_name, version, signer } }
        } else {
            refuse_import("import is not signed by NVIDIA Corporation")
        },
        None => refuse_import("import is not signed by NVIDIA Corporation"),
    }
}

impl ImportStore {
    /// The store below `root`.
    pub fn new(root: FilePath) -> (store: ImportStore)
        ensures
            store.root == root,
    {
        ImportStore { root }
    }

    /// Where the content with the digest `sha256` is stored.
    pub fn object_path(&self, sha256: &[u8; 32]) -> (path: FilePath)
        ensures
            path@ == object_of(self.root@, *sha256),
    {
        let name = hex_hash(sha256);
        self.root.join("objects").join(&name)
    }

    fn partial_path(&self, sha256: &[u8; 32]) -> (path: FilePath)
        ensures
            path@ == import_partial_of(self.root@, *sha256),
    {
        let digits = hex_hash(sha256);
        let name = join_three(".import-", &digits, ".partial");
        self.root.join("objects").join(&name)
    }

    /// Where the index is stored.
    pub fn index_path(&self) -> (path: FilePath)
        ensures
            path@ == joined(self.root@, "index.json"@),
    {
        self.root.join("index.json")
    }

    /// The index that was read, or an empty one if there was no file. A file of
    /// another version is refused.
    pub fn load_index(&self, read: Option<Result<Envelope<ImportIndex>, CoreError>>) -> (index: Result<
        ImportIndex,
        CoreError,
    >)
        ensures
            match read {
                Some(result) => is_unsealed(result, IMPORT_SCHEMA_VERSION, index),
                None => index matches Ok(index) && index.records.len() == 0,
            },
    {
        match read {
            Some(result) => unseal(result, IMPORT_SCHEMA_VERSION),
            None => Ok(ImportIndex { records: Vec::new() }),
        }
    }

    /// Starts the import of the file at `source`.
    pub fn begin(source: &FilePath) -> (stage: ImportStage)
        ensures
            import_starts(source@, stage),
    {
        match source.file_name() {
            None => refuse_import("import has no file name"),
            Some(name) => match classify_path(source) {
                None => refuse_import("file name is not a managed NVIDIA DLL"),
                Some(_) => ImportStage::Measuring { file_name: FileName::Unicode(name) },
            },
        }
    }

    /// What an import asks for next.
    pub fn action(&self, request: &ImportRequest, stage: &ImportStage) -> (action: ImportAction)
        ensures
            import_asks(self.root@, *request, *stage, action),
    {
        match stage {
            ImportStage::Measuring { file_name: _ } => ImportAction::File(
                FileAction::Measure { path: request.source.clone() },
            ),
            ImportStage::Inspecting { file_name: _ } => ImportAction::File(
                FileAction::Inspect { path: request.source.clone() },
            ),
            ImportStage::Verifying { file_name: _, version: _ } => ImportAction::File(
                FileAction::Verify { path: request.source.clone(), policy: TrustPolicy::Strict },
            ),
            ImportStage::Hashing { facts: _ } => ImportAction::File(
                FileAction::Hash { path: request.source.clone() },
            ),
            ImportStage::CreatingDirectory { facts: _, sha256: _ } => ImportAction::File(
                FileAction::CreateDirectory { path: self.root.join("objects") },
            ),
            ImportStage::LookingUp { facts: _, sha256 } => ImportAction::File(
                FileAction::Look { path: self.object_path(sha256) },
            ),
            ImportStage::LookingForRemains { facts: _, sha256 } => ImportAction::File(
                FileAction::Look { path: self.partial_path(sha256) },
            ),
            ImportStage::RemovingRemains { facts: _, sha256 } => ImportAction::File(
                FileAction::Remove { path: self.partial_path(sha256) },
            ),
            ImportStage::Copying { facts: _, sha256 } => ImportAction::File(
                FileAction::Copy {
                    from: request.source.clone(),
                    to: self.partial_path(sha256),
                    sha256: *sha256,
                },
            ),
            ImportStage::Renaming { facts: _, sha256 } => ImportAction::File(
                FileAction::Rename {
                    from: self.partial_path(sha256),
                    to: self.object_path(sha256),
                },
            ),
            ImportStage::LoadingIndex { facts: _, sha256: _ } => ImportAction::LoadIndex,
            ImportStage::SavingIndex { index: _, record: _ } => ImportAction::SaveIndex,
            ImportStage::Ended { outcome: _ } => ImportAction::Rest,
        }
    }

    /// The stage that `reply` leads to: validates one DLL of NVIDIA for x86-64,
    /// stores its content under its digest, and lists it.
    pub fn import(&self, request: &ImportRequest, stage: ImportStage, reply: ImportReply) -> (next:
        ImportStage)
        ensures
            import_follows(self.root@, *request, stage, reply, next),
    {
        match (stage, reply) {
            (
                ImportStage::Measuring { file_name },
                ImportReply::File(FileReply::Measured(result)),
            ) => match result {
                Err(error) => fail_import(error),
                Ok(size) => if size > MAX_IMPORTED_DLL_BYTES {
                    refuse_import("import exceeds the 256 MiB limit")
                } else {
                    ImportStage::Inspecting { file_name }
                },
            },
            (
                ImportStage::Inspecting { file_name },
                ImportReply::File(FileReply::Inspected(result)),
            ) => match result {
                Err(error) => fail_import(error),
                Ok(metadata) => judge_inspection(file_name, metadata),
            },
            (
                ImportStage::Verifying { file_name, version },
                ImportReply::File(FileReply::Verified(result)),
            ) => match result {
                Err(error) => fail_import(error),
                Ok(trust) => judge_verification(file_name, version, trust),
            },
            (ImportStage::Hashing { facts }, ImportReply::File(FileReply::Hashed(result))) => match result {
                Err(error) => fail_import(error),
                Ok(sha256) => ImportStage::CreatingDirectory { facts, sha256 },
            },
            (
                ImportStage::CreatingDirectory { facts, sha256 },
                ImportReply::File(FileReply::Done(result)),
            ) => match result {
                Err(error) => fail_import(error),
                Ok(_) => ImportStage::LookingUp { facts, sha256 },
            },
            (ImportStage::LookingUp { facts, sha256 }, ImportReply::File(FileReply::Found(found))) => {
                if found {
                    ImportStage::LoadingIndex { facts, sha256 }
                } else {
                    ImportStage::LookingForRemains { facts, sha256 }
                }
            },
            (
                ImportStage::LookingForRemains { facts, sha256 },
                ImportReply::File(FileReply::Found(found)),
            ) => if found {
                ImportStage::RemovingRemains { facts, sha256 }
            } else {
                ImportStage::Copying { facts, sha256 }
            },
            (
                ImportStage::RemovingRemains { facts, sha256 },
                ImportReply::File(FileReply::Done(result)),
            ) => match result {
                Err(error) => fail_import(error),
                Ok(_) => ImportStage::Copying { facts, sha256 },
            },
            (ImportStage::Copying { facts, sha256 }, ImportReply::File(FileReply::Done(result))) => match result {
                Err(error) => fail_import(error),
                Ok(_) => ImportStage::Renaming { facts, sha256 },
            },
            (ImportStage::Renaming { facts, sha256 }, ImportReply::File(FileReply::Done(result))) => match result {
                Err(error) => fail_import(error),
                Ok(_) => ImportStage::LoadingIndex { facts, sha256 },
            },
            (ImportStage::LoadingIndex { facts, sha256 }, ImportReply::Index(result)) => match result {
                Err(error) => fail_import(error),
                Ok(loaded) => {
                    let record = ImportedDllRecord {
                        file_name: facts.file_name,
                        version: facts.version,
                        sha256,
                        signer: facts.signer,
                        imported_unix: request.imported_unix,
                        content_path: self.object_path(&sha256),
                    };
                    let mut index = loaded;
                    index.upsert(record.clone());
                    ImportStage::SavingIndex { index, record }
                },
            },
            (
                ImportStage::SavingIndex { index: _, record },
                ImportReply::File(FileReply::Done(result)),
            ) => match result {
                Err(error) => fail_import(error),
                Ok(_) => ImportStage::Ended { outcome: Ok(record) },
            },
            (stage, _) => stage,
        }
    }
}

/// Whether `stages` are the stages that an import goes through as `replies`
/// come in.
pub open spec fn is_import_run(
    root: Seq<char>,
    request: ImportRequest,
    replies: Seq<ImportReply>,
    stages: Seq<ImportStage>,
) -> bool {
    &&& stages.len() == replies.len() + 1
    &&& import_starts(request.source@, stages[0])
    &&& forall|i: int|
        0 <= i < replies.len() ==> import_follows(
            root,
            request,
            stages[i],
            #[trigger] replies[i],
            stages[i + 1],
        )
}

/// Whether the file at `source` passed every check that an import makes.
pub open spec fn passed_checks(source: Seq<char>, replies: Seq<ImportReply>) -> bool {
    &&& path_kind(source) is Some
    &&& measured_small(replies)
    &&& inspected_well(replies)
    &&& verified_well(replies)
}

/// Whether a size within the limit was measured.
pub open spec fn measured_small(replies: Seq<ImportReply>) -> bool {
    exists|i: int|
        0 <= i < replies.len() && (#[trigger] replies[i] matches ImportReply::File(
            FileReply::Measured(Ok(size)),
        ) && size <= MAX_IMPORTED_DLL_BYTES)
}

/// Whether an x86-64 DLL with a version was found.
pub open spec fn inspected_well(replies: Seq<ImportReply>) -> bool {
    exists|i: int|
        0 <= i < replies.len() && (#[trigger] replies[i] matches ImportReply::File(
            FileReply::Inspected(Ok(metadata)),
        ) && metadata.x86_64 && metadata.version is Some)
}

/// Whether a trusted signature by NVIDIA was found.
pub open spec fn verified_well(replies: Seq<ImportReply>) -> bool {
    exists|i: int|
        0 <= i < replies.len() && (#[trigger] replies[i] matches ImportReply::File(
            FileReply::Verified(Ok(trust)),
        ) && trust.signature == SignatureStatus::Trusted && nvidia_signature(trust.signer))
}

/// What must have come in before an import can be at `stage`.
pub open spec fn import_is_earned(
    source: Seq<char>,
    stage: ImportStage,
    replies: Seq<ImportReply>,
) -> bool {
    match stage {
        ImportStage::Measuring { file_name: _ } => path_kind(source) is Some,
        ImportStage::Inspecting { file_name: _ } => path_kind(source) is Some && measured_small(
            replies,
        ),
        ImportStage::Verifying { file_name: _, version: _ } => {
            &&& path_kind(source) is Some
            &&& measured_small(replies)
            &&& inspected_well(replies)
        },
        ImportStage::Ended { outcome } => outcome is Ok ==> passed_checks(source, replies),
        _ => passed_checks(source, replies),
    }
}

proof fn import_earned_stays(
    source: Seq<char>,
    stage: ImportStage,
    before: Seq<ImportReply>,
    reply: ImportReply,
)
    requires
        import_is_earned(source, stage, before),
    ensures
        import_is_earned(source, stage, before.push(reply)),
{
    let after = before.push(reply);
    if measured_small(before) {
        let i = choose|i: int|
            0 <= i < before.len() && (#[trigger] before[i] matches ImportReply::File(
                FileReply::Measured(Ok(size)),
            ) && size <= MAX_IMPORTED_DLL_BYTES);
        assert(after[i] == before[i]);
    }
    if inspected_well(before) {
        let i = choose|i: int|
            0 <= i < before.len() && (#[trigger] before[i] matches ImportReply::File(
                FileReply::Inspected(Ok(metadata)),
            ) && metadata.x86_64 && metadata.version is Some);
        assert(after[i] == before[i]);
    }
    if verified_well(before) {
        let i = choose|i: int|
            0 <= i < before.len() && (#[trigger] before[i] matches ImportReply::File(
                FileReply::Verified(Ok(trust)),
            ) && trust.signature == SignatureStatus::Trusted && nvidia_signature(trust.signer));
        assert(after[i] == before[i]);
    }
}

/// Nothing is copied, stored or listed before the file passed every check, and
/// only a file that passed them all is ever imported.
pub proof fn only_checked_dlls_are_imported(
    root: Seq<char>,
    request: ImportRequest,
    replies: Seq<ImportReply>,
    stages: Seq<ImportStage>,
)
    requires
        is_import_run(root, request, replies, stages),
    ensures
        import_is_earned(request.source@, stages.last(), replies),
    decreases replies.len(),
{
    if replies.len() > 0 {
        let last = replies.len() - 1;
        let before = replies.drop_last();
        let earlier = stages.drop_last();
        assert forall|i: int| 0 <= i < before.len() implies import_follows(
            root,
            request,
            earlier[i],
            #[trigger] before[i],
            earlier[i + 1],
        ) by {
            assert(before[i] == replies[i]);
        }
        only_checked_dlls_are_imported(root, request, before, earlier);
        let reply = replies[last];
        assert(before.push(reply) =~= replies);
        import_earned_stays(request.source@, earlier.last(), before, reply);
        assert(import_follows(root, request, stages[last], replies[last], stages[last + 1]));
        assert(earlier.last() == stages[last]);
    }
}

/// How far the removal of an imported DLL has come.
#[derive(Debug, PartialEq, Eq)]
pub enum RemovalStage {
    LoadingIndex,
    LookingUp { index: ImportIndex },
    Deleting { index: ImportIndex },
    SavingIndex { index: ImportIndex },
    Ended { outcome: Result<(), CoreError> },
}

/// What a removal asks for at a stage.
pub open spec fn removal_asks(
    root: Seq<char>,
    sha256: [u8; 32],
    stage: RemovalStage,
    action: ImportAction,
) -> bool {
    match stage {
        RemovalStage::LoadingIndex => action == ImportAction::LoadIndex,
        RemovalStage::LookingUp { index: _ } => action matches ImportAction::File(
            FileAction::Look { path },
        ) && path@ == object_of(root, sha256),
        RemovalStage::Deleting { index: _ } => action matches ImportAction::File(
            FileAction::Remove { path },
        ) && path@ == object_of(root, sha256),
        RemovalStage::SavingIndex { index: _ } => action == ImportAction::SaveIndex,
        RemovalStage::Ended { outcome: _ } => action == ImportAction::Rest,
    }
}

/// Whether `next` is the stage that `reply` leads to. A reply that answers some
/// other action changes nothing.
pub open spec fn removal_follows(
    sha256: [u8; 32],
    stage: RemovalStage,
    reply: ImportReply,
    next: RemovalStage,
) -> bool {
    match (stage, reply) {
        (RemovalStage::LoadingIndex, ImportReply::Index(result)) => match result {
            Ok(loaded) => next matches RemovalStage::LookingUp { index } && index.records@
                == without_import(loaded.records@, sha256),
            Err(error) => next == (RemovalStage::Ended { outcome: Err(error) }),
        },
        (RemovalStage::LookingUp { index }, ImportReply::File(FileReply::Found(found))) => next
            == if found {
            RemovalStage::Deleting { index }
        } else {
            RemovalStage::SavingIndex { index }
        },
        (RemovalStage::Deleting { index }, ImportReply::File(FileReply::Done(result))) => next
            == match result {
            Ok(_) => RemovalStage::SavingIndex { index },
            Err(error) => RemovalStage::Ended { outcome: Err(error) },
        },
        (RemovalStage::SavingIndex { index: _ }, ImportReply::File(FileReply::Done(result))) => {
            next == (RemovalStage::Ended { outcome: result })
        },
        _ => next == stage,
    }
}

impl ImportStore {
    /// What a removal asks for next.
    pub fn removal_action(&self, sha256: &[u8; 32], stage: &RemovalStage) -> (action: ImportAction)
        ensures
            removal_asks(self.root@, *sha256, *stage, action),
    {
        match stage {
            RemovalStage::LoadingIndex => ImportAction::LoadIndex,
            RemovalStage::LookingUp { index: _ } => ImportAction::File(
                FileAction::Look { path: self.object_path(sha256) },
            ),
            RemovalStage::Deleting { index: _ } => ImportAction::File(
                FileAction::Remove { path: self.object_path(sha256) },
            ),
            RemovalStage::SavingIndex { index: _ } => ImportAction::SaveIndex,
            RemovalStage::Ended { outcome: _ } => ImportAction::Rest,
        }
    }

    /// The stage that `reply` leads to: lists the DLL with the digest `sha256`
    /// no more and deletes its content.
    pub fn remove(&self, sha256: &[u8; 32], stage: RemovalStage, reply: ImportReply) -> (next:
        RemovalStage)
        ensures
            removal_follows(*sha256, stage, reply, next),
    {
        match (stage, reply) {
            (RemovalStage::LoadingIndex, ImportReply::Index(result)) => match result {
                Ok(loaded) => {
                    let mut index = loaded;
                    index.forget(sha256);
                    RemovalStage::LookingUp { index }
                },
                Err(error) => RemovalStage::Ended { outcome: Err(error) },
            },
            (RemovalStage::LookingUp { index }, ImportReply::File(FileReply::Found(found))) => {
                if found {
                    RemovalStage::Deleting { index }
                } else {
                    RemovalStage::SavingIndex { index }
                }
            },
            (RemovalStage::Deleting { index }, ImportReply::File(FileReply::Done(result))) => {
                match result {
                    Ok(_) => RemovalStage::SavingIndex { index },
                    Err(error) => RemovalStage::Ended { outcome: Err(error) },
                }
            },
            (RemovalStage::SavingIndex { index: _ }, ImportReply::File(FileReply::Done(result))) => {
                RemovalStage::Ended { outcome: result }
            },
            (stage, _) => stage,
        }
    }
}

/// Whether `stages` are what a removal goes through as `replies` come in.
pub open spec fn is_removal(
    sha256: [u8; 32],
    replies: Seq<ImportReply>,
    stages: Seq<RemovalStage>,
) -> bool {
    &&& stages.len() == replies.len() + 1
    &&& stages[0] == RemovalStage::LoadingIndex
    &&& forall|i: int|
        #![trigger replies[i]]
        0 <= i < replies.len() ==> removal_follows(sha256, stages[i], replies[i], stages[i + 1])
}

/// What the index lists that a removal works on.
pub open spec fn removal_index(stage: RemovalStage) -> Option<Seq<ImportedDllRecord>> {
    match stage {
        RemovalStage::LookingUp { index } => Some(index.records@),
        RemovalStage::Deleting { index } => Some(index.records@),
        RemovalStage::SavingIndex { index } => Some(index.records@),
        _ => None,
    }
}

/// Whether `records` are those of an index that was loaded, without the content
/// `sha256`.
pub open spec fn lacks_only(
    reply: ImportReply,
    sha256: [u8; 32],
    records: Seq<ImportedDllRecord>,
) -> bool {
    reply matches ImportReply::Index(Ok(loaded)) && records == without_import(
        loaded.records@,
        sha256,
    )
}

/// The index that a removal is about to save is the one that was loaded, without
/// the removed content and with every other DLL.
pub proof fn saved_indexes_lack_the_removed(
    sha256: [u8; 32],
    replies: Seq<ImportReply>,
    stages: Seq<RemovalStage>,
)
    requires
        is_removal(sha256, replies, stages),
    ensures
        removal_index(stages.last()) matches Some(records) ==> {
            &&& forall|i: int|
                0 <= i < records.len() ==> (#[trigger] records[i]).sha256 != sha256
            &&& exists|j: int|
                0 <= j < replies.len() && lacks_only(#[trigger] replies[j], sha256, records)
        },
    decreases replies.len(),
{
    if replies.len() > 0 {
        let earlier = replies.drop_last();
        let before = stages.drop_last();
        let last = replies.len() - 1;
        assert forall|i: int|
            #![trigger earlier[i]]
            0 <= i < earlier.len() implies removal_follows(
            sha256,
            before[i],
            earlier[i],
            before[i + 1],
        ) by {
            assert(earlier[i] == replies[i]);
        }
        saved_indexes_lack_the_removed(sha256, earlier, before);
        assert(replies[last] == replies.last());
        assert(removal_follows(sha256, stages[last], replies[last], stages[last + 1]));
        assert(before.last() == stages[last]);
        if let Some(records) = removal_index(stages.last()) {
            if stages[last] == RemovalStage::LoadingIndex {
                if let ImportReply::Index(Ok(loaded)) = replies[last] {
                    removal_takes_one_content(loaded.records@, sha256);
                    assert(lacks_only(replies[last], sha256, records));
                }
            } else {
                assert(removal_index(before.last()) == Some(records));
                let j = choose|j: int|
                    0 <= j < earlier.len() && lacks_only(#[trigger] earlier[j], sha256, records);
                assert(lacks_only(replies[j], sha256, records));
            }
        }
    }
}

/// A removal takes out exactly the records of the content, and leaves the
/// others in their order.
pub proof fn only_one_content_is_removed(
    records: Seq<ImportedDllRecord>,
    sha256: [u8; 32],
) -> (kept: Seq<int>)
    ensures
        picks(kept, records.len() as int, |i: int| records[i].sha256 != sha256),
        without_import(records, sha256).len() == kept.len(),
        forall|k: int|
            #![trigger without_import(records, sha256)[k]]
            0 <= k < kept.len() ==> without_import(records, sha256)[k] == records[kept[k]],
    decreases records.len(),
{
    let here = |i: int| records[i].sha256 != sha256;
    if records.len() == 0 {
        picks_nothing(here);
        Seq::empty()
    } else {
        let shorter = records.drop_last();
        let before = only_one_content_is_removed(shorter, sha256);
        picks_grow(before, shorter.len() as int, |i: int| shorter[i].sha256 != sha256, here)
    }
}

/// Importing leaves the records of other contents where they are, and adds one
/// record at the end only where the content was not listed.
pub proof fn imports_leave_others_alone(
    records: Seq<ImportedDllRecord>,
    record: ImportedDllRecord,
)
    ensures
        forall|i: int|
            0 <= i < records.len() && (#[trigger] records[i]).sha256 != record.sha256
                ==> with_import(records, record)[i] == records[i],
        (exists|i: int| 0 <= i < records.len() && (#[trigger] records[i]).sha256 == record.sha256)
            ==> with_import(records, record).len() == records.len(),
        (forall|i: int| 0 <= i < records.len() ==> (#[trigger] records[i]).sha256 != record.sha256)
            ==> with_import(records, record) == records.push(record),
        with_import(records, record).contains(record),
{
    import_position_facts(records, record.sha256);
    let at = import_position(records, record.sha256);
    assert(with_import(records, record)[at] == record);
}

/// An import reads the file that it was given, and writes nothing but the
/// content that it stores: a copy beside its place, which takes that place when
/// it is complete, under the name of its digest. It asks for the strict check
/// of the signature.
pub proof fn imports_write_only_their_object(
    root: Seq<char>,
    request: ImportRequest,
    stage: ImportStage,
    action: ImportAction,
)
    requires
        import_asks(root, request, stage, action),
    ensures
        match action {
            ImportAction::File(FileAction::Measure { path }) => path == request.source,
            ImportAction::File(FileAction::Inspect { path }) => path == request.source,
            ImportAction::File(FileAction::Verify { path, policy }) => path == request.source
                && policy == TrustPolicy::Strict,
            ImportAction::File(FileAction::Hash { path }) => path == request.source,
            ImportAction::File(FileAction::CreateDirectory { path }) => path@ == joined(
                root,
                "objects"@,
            ),
            ImportAction::File(FileAction::Copy { from, to, sha256 }) => from == request.source
                && to@ == joined(
                joined(root, "objects"@),
                ".import-"@ + hex(sha256@) + ".partial"@,
            ),
            ImportAction::File(FileAction::Rename { from, to }) => exists|sha256: [u8; 32]|
                from@ == joined(
                    joined(root, "objects"@),
                    ".import-"@ + #[trigger] hex(sha256@) + ".partial"@,
                ) && to@ == joined(joined(root, "objects"@), hex(sha256@)),
            ImportAction::File(FileAction::Remove { path }) => exists|sha256: [u8; 32]|
                path@ == joined(
                    joined(root, "objects"@),
                    ".import-"@ + #[trigger] hex(sha256@) + ".partial"@,
                ),
            ImportAction::File(FileAction::Look { .. }) => true,
            ImportAction::File(_) => false,
            ImportAction::LoadIndex => stage is LoadingIndex,
            ImportAction::SaveIndex => stage is SavingIndex,
            ImportAction::Rest => stage is Ended,
        },
{
    match stage {
        ImportStage::Renaming { facts, sha256 } => {
            assert(hex(sha256@) == hex(sha256@));
        },
        ImportStage::RemovingRemains { facts, sha256 } => {
            assert(hex(sha256@) == hex(sha256@));
        },
        _ => {},
    }
}

/// An import of a managed DLL that passes every check, and of which every step
/// goes well, lists and returns a record of it: its name, its version, its
/// digest, its signer, where it is stored and the time.
pub proof fn a_smooth_import_succeeds(
    root: Seq<char>,
    request: ImportRequest,
    size: u64,
    metadata: DllMetadata,
    trust: TrustReport,
    sha256: [u8; 32],
    loaded: ImportIndex,
    stages: Seq<ImportStage>,
)
    requires
        path_kind(request.source@) is Some,
        size <= 268435456,
        metadata.x86_64,
        metadata.version is Some,
        trust.signature == SignatureStatus::Trusted,
        nvidia_signature(trust.signer),
        is_import_run(
            root,
            request,
            seq![
                ImportReply::File(FileReply::Measured(Ok(size))),
                ImportReply::File(FileReply::Inspected(Ok(metadata))),
                ImportReply::File(FileReply::Verified(Ok(trust))),
                ImportReply::File(FileReply::Hashed(Ok(sha256))),
                ImportReply::File(FileReply::Done(Ok(()))),
                ImportReply::File(FileReply::Found(false)),
                ImportReply::File(FileReply::Found(false)),
                ImportReply::File(FileReply::Done(Ok(()))),
                ImportReply::File(FileReply::Done(Ok(()))),
                ImportReply::Index(Ok(loaded)),
                ImportReply::File(FileReply::Done(Ok(()))),
            ],
            stages,
        ),
    ensures
        stages.last() matches ImportStage::Ended { outcome: Ok(record) } && {
            &&& record.file_name matches FileName::Unicode(name) && name@ == last_part(
                request.source@,
            )
            &&& Some(record.version) == metadata.version
            &&& record.sha256 == sha256
            &&& record.signer == trust.signer->0
            &&& record.imported_unix == request.imported_unix
            &&& record.content_path@ == joined(joined(root, "objects"@), hex(sha256@))
            &&& stages[10] matches ImportStage::SavingIndex { index, record: listed } && listed
                == record && index.records@.contains(record)
        },
{
    let replies = seq![
        ImportReply::File(FileReply::Measured(Ok(size))),
        ImportReply::File(FileReply::Inspected(Ok(metadata))),
        ImportReply::File(FileReply::Verified(Ok(trust))),
        ImportReply::File(FileReply::Hashed(Ok(sha256))),
        ImportReply::File(FileReply::Done(Ok(()))),
        ImportReply::File(FileReply::Found(false)),
        ImportReply::File(FileReply::Found(false)),
        ImportReply::File(FileReply::Done(Ok(()))),
        ImportReply::File(FileReply::Done(Ok(()))),
        ImportReply::Index(Ok(loaded)),
        ImportReply::File(FileReply::Done(Ok(()))),
    ];
    assert(import_follows(root, request, stages[0], replies[0], stages[1]));
    assert(import_follows(root, request, stages[1], replies[1], stages[2]));
    assert(import_follows(root, request, stages[2], replies[2], stages[3]));
    assert(import_follows(root, request, stages[3], replies[3], stages[4]));
    assert(import_follows(root, request, stages[4], replies[4], stages[5]));
    assert(import_follows(root, request, stages[5], replies[5], stages[6]));
    assert(import_follows(root, request, stages[6], replies[6], stages[7]));
    assert(import_follows(root, request, stages[7], replies[7], stages[8]));
    assert(import_follows(root, request, stages[8], replies[8], stages[9]));
    assert(import_follows(root, request, stages[9], replies[9], stages[10]));
    assert(import_follows(root, request, stages[10], replies[10], stages[11]));
    if let ImportStage::SavingIndex { index, record } = stages[10] {
        imports_leave_others_alone(loaded.records@, record);
    }
}

/// An import is refused for the first check that the file does not pass.
pub proof fn imports_are_refused_for_a_reason(
    root: Seq<char>,
    request: ImportRequest,
    stage: ImportStage,
    reply: ImportReply,
    next: ImportStage,
)
    requires
        import_follows(root, request, stage, reply, next),
    ensures
        stage is Measuring && (reply matches ImportReply::File(FileReply::Measured(Ok(size))) && size
            > 268435456) ==> import_refused(next, "import exceeds the 256 MiB limit"@),
        stage is Inspecting && (reply matches ImportReply::File(FileReply::Inspected(Ok(metadata)))
            && !metadata.x86_64) ==> import_refused(next, "import is not an x86-64 PE DLL"@),
        stage is Inspecting && (reply matches ImportReply::File(FileReply::Inspected(Ok(metadata)))
            && metadata.x86_64 && metadata.version is None) ==> import_refused(
            next,
            "import has no version resource"@,
        ),
        stage is Verifying && (reply matches ImportReply::File(FileReply::Verified(Ok(trust)))
            && trust.signature != SignatureStatus::Trusted) ==> import_refused(
            next,
            "import signature is not trusted"@,
        ),
        stage is Verifying && (reply matches ImportReply::File(FileReply::Verified(Ok(trust)))
            && trust.signature == SignatureStatus::Trusted && !nvidia_signature(trust.signer))
            ==> import_refused(next, "import is not signed by NVIDIA Corporation"@),
        stage is Measuring ==> (reply matches ImportReply::File(FileReply::Measured(Err(error)))
            ==> next == (ImportStage::Ended { outcome: Err(error) })),
        stage is Inspecting ==> (reply matches ImportReply::File(FileReply::Inspected(Err(error)))
            ==> next == (ImportStage::Ended { outcome: Err(error) })),
        stage is Verifying ==> (reply matches ImportReply::File(FileReply::Verified(Err(error)))
            ==> next == (ImportStage::Ended { outcome: Err(error) })),
        stage is Hashing ==> (reply matches ImportReply::File(FileReply::Hashed(Err(error)))
            ==> next == (ImportStage::Ended { outcome: Err(error) })),
        stage is CreatingDirectory || stage is RemovingRemains || stage is Copying || stage
            is Renaming || stage is SavingIndex ==> (reply matches ImportReply::File(
            FileReply::Done(Err(error)),
        ) ==> next == (ImportStage::Ended { outcome: Err(error) })),
        stage is LoadingIndex ==> (reply matches ImportReply::Index(Err(error)) ==> next == (
        ImportStage::Ended { outcome: Err(error) })),
        stage is Ended ==> next == stage,
{
}

/// A removal of which every step goes well succeeds; it deletes the stored
/// content of that digest and nothing else.
pub proof fn a_smooth_removal_succeeds(
    root: Seq<char>,
    sha256: [u8; 32],
    loaded: ImportIndex,
    stages: Seq<RemovalStage>,
    stage: RemovalStage,
    action: ImportAction,
)
    requires
        is_removal(
            sha256,
            seq![
                ImportReply::Index(Ok(loaded)),
                ImportReply::File(FileReply::Found(true)),
                ImportReply::File(FileReply::Done(Ok(()))),
                ImportReply::File(FileReply::Done(Ok(()))),
            ],
            stages,
        ),
        removal_asks(root, sha256, stage, action),
    ensures
        stages.last() == (RemovalStage::Ended { outcome: Ok(()) }),
        stages[2] is Deleting,
        stages[3] matches RemovalStage::SavingIndex { index } && index.records@ == without_import(
            loaded.records@,
            sha256,
        ),
        action matches ImportAction::File(FileAction::Remove { path }) ==> path@ == joined(
            joined(root, "objects"@),
            hex(sha256@),
        ),
        stage is Deleting ==> (action matches ImportAction::File(FileAction::Remove { path })),
        action matches ImportAction::File(file) ==> file is Look || file is Remove,
{
    let replies = seq![
        ImportReply::Index(Ok(loaded)),
        ImportReply::File(FileReply::Found(true)),
        ImportReply::File(FileReply::Done(Ok(()))),
        ImportReply::File(FileReply::Done(Ok(()))),
    ];
    assert(removal_follows(sha256, stages[0], replies[0], stages[1]));
    assert(removal_follows(sha256, stages[1], replies[1], stages[2]));
    assert(removal_follows(sha256, stages[2], replies[2], stages[3]));
    assert(removal_follows(sha256, stages[3], replies[3], stages[4]));
}

} // verus!
