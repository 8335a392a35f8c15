use dlss_updater::backups::{
    load_report, BackupCheck, BackupRequest, BackupStore, CommitAction, CommitReply, CommitStage,
};
use dlss_updater::digest::digest_of;
use dlss_updater::files::{check_copy, Envelope, FileAction, FileReply};
use dlss_updater::imports::{
    imported_catalog_dlls, imported_release_id, is_imported_release, ImportAction, ImportIndex,
    ImportReply, ImportRequest, ImportStage, ImportStore, ImportedDllRecord, RemovalStage,
    MAX_IMPORTED_DLL_BYTES,
};
use dlss_updater::kinds::{classify_path, is_dlss_dll, is_managed_dll, DllKind};
use dlss_updater::model::{
    compare_dll, compare_target, BackupIndex, BackupRecord, BatchResult, CatalogDll, Comparison,
    DesiredDll, DllInstallation, DllInstallationId, DllMetadata, DllVersion, FileName, GameId,
    OperationPlan, PlannedSwap, ReleaseId, SignatureStatus,
};
use dlss_updater::paths::{FilePath, PathStyle};
use dlss_updater::planning::{
    plan_dlss_only_upgrades, plan_strict_upgrades, plan_target_profile, plan_touches_streamline,
};
use dlss_updater::profile::TargetProfile;
use dlss_updater::replacing::{stage_path, ReplaceStage, Replacement};
use dlss_updater::swap::{action, advance, execute_plan, SwapAction, SwapReply, SwapStage};
use dlss_updater::traits::CoreError;
use dlss_updater::trust::{is_nvidia_signer, RevocationStatus, TrustPolicy, TrustReport};
use std::collections::BTreeMap;

fn place(text: &str) -> FilePath {
    FilePath::parse(PathStyle::Windows, text)
}

/// What a file holds that was just written.
fn sealed<T>(payload: T) -> Result<Envelope<T>, CoreError> {
    Ok(Envelope { schema_version: 1, payload })
}

fn missing() -> CoreError {
    CoreError::Io { permission_denied: false, message: "not found".into() }
}

/// Files by path, and the indexes that the stores keep.
struct Disk {
    files: BTreeMap<String, Vec<u8>>,
    /// Files that announce another size than they have.
    sizes: BTreeMap<String, u64>,
    backups: Option<BackupIndex>,
    imports: Option<ImportIndex>,
    /// Targets that cannot be replaced, and why.
    fail: Vec<String>,
    denied: bool,
    /// What is written when a target is replaced, in place of the source.
    spoil: Option<Vec<u8>>,
    trust: TrustReport,
    x64: bool,
    versioned: bool,
}

impl Disk {
    fn new() -> Disk {
        Disk {
            files: BTreeMap::new(),
            sizes: BTreeMap::new(),
            backups: None,
            imports: None,
            fail: Vec::new(),
            denied: false,
            spoil: None,
            trust: trusted("NVIDIA Corporation"),
            x64: true,
            versioned: true,
        }
    }

    fn write(&mut self, path: &str, bytes: &[u8]) {
        self.files.insert(path.to_owned(), bytes.to_vec());
    }

    fn hash(&self, path: &str) -> [u8; 32] {
        digest_of(&self.files[path])
    }

    fn read(&self, path: &FilePath) -> Result<&Vec<u8>, CoreError> {
        self.files.get(&path.text).ok_or_else(missing)
    }

    fn inspect(&self, path: &FilePath) -> Result<DllMetadata, CoreError> {
        Ok(DllMetadata {
            version: self.versioned.then(|| DllVersion::new(1, 0, 0, 0)),
            sha256: digest_of(self.read(path)?),
            signature: SignatureStatus::Trusted,
            x86_64: self.x64,
        })
    }

    fn perform(&mut self, action: FileAction) -> FileReply {
        match action {
            FileAction::Inspect { path } => FileReply::Inspected(self.inspect(&path)),
            FileAction::Verify { policy, .. } => {
                assert_eq!(policy, TrustPolicy::Strict);
                FileReply::Verified(Ok(self.trust.clone()))
            }
            FileAction::Measure { path } => FileReply::Measured(match self.sizes.get(&path.text) {
                Some(size) => Ok(*size),
                None => self.read(&path).map(|bytes| bytes.len() as u64),
            }),
            FileAction::Hash { path } => {
                FileReply::Hashed(self.read(&path).map(|bytes| digest_of(bytes)))
            }
            FileAction::Look { path } => FileReply::Found(self.files.contains_key(&path.text)),
            FileAction::CreateDirectory { .. } => FileReply::Done(Ok(())),
            FileAction::Copy { from, to, sha256 } => {
                let copied = self.read(&from).cloned();
                FileReply::Done(copied.and_then(|bytes| {
                    check_copy(&digest_of(&bytes), &sha256)?;
                    self.files.insert(to.text.clone(), bytes);
                    Ok(())
                }))
            }
            FileAction::Duplicate { from, to } => {
                let copied = self.read(&from).cloned();
                FileReply::Done(copied.map(|bytes| {
                    self.files.insert(to.text.clone(), bytes);
                }))
            }
            FileAction::Rename { from, to } => {
                let moved = self.files.remove(&from.text).ok_or_else(missing);
                FileReply::Done(moved.map(|bytes| {
                    self.files.insert(to.text.clone(), bytes);
                }))
            }
            FileAction::Remove { path } => {
                FileReply::Done(self.files.remove(&path.text).map(|_| ()).ok_or_else(missing))
            }
            FileAction::Resolve { .. } | FileAction::RemoveTree { .. } => {
                panic!("nothing asks for this here")
            }
        }
    }

    fn back_up(
        &mut self,
        store: &BackupStore,
        original: &FilePath,
        expected_sha256: [u8; 32],
        created_unix: i64,
    ) -> Result<BackupRecord, CoreError> {
        let request =
            BackupRequest { original: original.clone(), expected_sha256, created_unix };
        let mut stage = CommitStage::Inspecting;
        loop {
            let reply = match store.action(&request, &stage) {
                CommitAction::File(action) => CommitReply::File(self.perform(action)),
                CommitAction::LoadIndex => {
                    CommitReply::Index(store.load_index(self.backups.take().map(sealed)))
                }
                CommitAction::SaveIndex => match &stage {
                    CommitStage::SavingIndex { index, .. } => {
                        self.backups = Some(BackupIndex { records: index.records.clone() });
                        CommitReply::File(FileReply::Done(Ok(())))
                    }
                    _ => unreachable!(),
                },
                CommitAction::Rest => match stage {
                    CommitStage::Ended { outcome } => return outcome,
                    _ => unreachable!(),
                },
            };
            stage = store.commit(&request, stage, reply);
        }
    }

    fn replace(&mut self, target: &FilePath, source: &FilePath) -> Result<(), CoreError> {
        if self.denied {
            return Err(CoreError::Io { permission_denied: true, message: "denied".into() });
        }
        if self.fail.iter().any(|path| *path == target.text) {
            return Err(CoreError::Validation("injected replacement failure".into()));
        }
        let bytes = match self.spoil.take() {
            Some(bytes) => bytes,
            None => self.read(source)?.clone(),
        };
        self.files.insert(target.text.clone(), bytes);
        Ok(())
    }

    fn swap(
        &mut self,
        swap: &PlannedSwap,
        store: &BackupStore,
        now: i64,
    ) -> Result<(DllMetadata, BackupRecord), CoreError> {
        let mut stage = SwapStage::Inspecting;
        loop {
            let reply = match action(swap, &stage) {
                SwapAction::Inspect { path } => SwapReply::Inspected(self.inspect(&path)),
                SwapAction::Hash { path } => {
                    SwapReply::Hashed(self.read(&path).map(|bytes| digest_of(bytes)))
                }
                SwapAction::BackUp { path, expected_sha256 } => {
                    SwapReply::BackedUp(self.back_up(store, &path, expected_sha256, now))
                }
                SwapAction::Replace { target, source, .. } => {
                    SwapReply::Replaced(self.replace(&target, &source))
                }
                SwapAction::Rest => match stage {
                    SwapStage::Ended { outcome } => return outcome,
                    _ => unreachable!(),
                },
            };
            stage = advance(swap, stage, reply);
        }
    }

    fn execute(&mut self, plan: &OperationPlan, store: &BackupStore, now: i64) -> BatchResult {
        let outcomes = plan.swaps.iter().map(|swap| self.swap(swap, store, now)).collect();
        execute_plan(plan, outcomes)
    }

    fn import(
        &mut self,
        store: &ImportStore,
        source: &str,
        now: i64,
    ) -> Result<ImportedDllRecord, CoreError> {
        let request = ImportRequest { source: place(source), imported_unix: now };
        let mut stage = ImportStore::begin(&request.source);
        loop {
            let reply = match store.action(&request, &stage) {
                ImportAction::File(action) => ImportReply::File(self.perform(action)),
                ImportAction::LoadIndex => {
                    ImportReply::Index(store.load_index(self.imports.take().map(sealed)))
                }
                ImportAction::SaveIndex => match &stage {
                    ImportStage::SavingIndex { index, .. } => {
                        self.imports = Some(ImportIndex { records: index.records.clone() });
                        ImportReply::File(FileReply::Done(Ok(())))
                    }
                    _ => unreachable!(),
                },
                ImportAction::Rest => match stage {
                    ImportStage::Ended { outcome } => return outcome,
                    _ => unreachable!(),
                },
            };
            stage = store.import(&request, stage, reply);
        }
    }

    fn remove_import(&mut self, store: &ImportStore, sha256: &[u8; 32]) -> Result<(), CoreError> {
        let mut stage = RemovalStage::LoadingIndex;
        loop {
            let reply = match store.removal_action(sha256, &stage) {
                ImportAction::File(action) => ImportReply::File(self.perform(action)),
                ImportAction::LoadIndex => {
                    ImportReply::Index(store.load_index(self.imports.take().map(sealed)))
                }
                ImportAction::SaveIndex => match &stage {
                    RemovalStage::SavingIndex { index } => {
                        self.imports = Some(ImportIndex { records: index.records.clone() });
                        ImportReply::File(FileReply::Done(Ok(())))
                    }
                    _ => unreachable!(),
                },
                ImportAction::Rest => match stage {
                    RemovalStage::Ended { outcome } => return outcome,
                    _ => unreachable!(),
                },
            };
            stage = store.remove(sha256, stage, reply);
        }
    }
}

fn trusted(signer: &str) -> TrustReport {
    TrustReport {
        signature: SignatureStatus::Trusted,
        signer: Some(signer.to_owned()),
        revocation: RevocationStatus::Verified,
        native_failure: None,
    }
}

fn installation(disk: &Disk, path: &str, version: Option<DllVersion>) -> DllInstallation {
    let path = place(path);
    DllInstallation {
        id: DllInstallationId(path.text.clone()),
        game_id: GameId("g".into()),
        file_name: FileName::new(&path.file_name().unwrap()),
        metadata: DllMetadata {
            version,
            sha256: disk.hash(&path.text),
            signature: SignatureStatus::Trusted,
            x86_64: true,
        },
        path,
    }
}

fn catalog_dll(disk: &Disk, name: &str, version: DllVersion, source: &str, release: &str) -> CatalogDll {
    CatalogDll {
        file_name: FileName::new(name),
        version,
        sha256: disk.hash(source),
        source: place(source),
        release: ReleaseId(release.into()),
    }
}

#[test]
fn quick_upgrade_only_selects_strictly_newer_same_named_dlls() {
    let mut disk = Disk::new();
    disk.write("/dir/nvngx_dlss.dll", b"old");
    disk.write("/dir/sl.common.dll", b"unknown");
    disk.write("/dir/cached.dll", b"new");
    let latest =
        catalog_dll(&disk, "NVNGX_DLSS.DLL", DllVersion::new(2, 0, 0, 0), "/dir/cached.dll", "r");
    let plan = plan_strict_upgrades(
        "n",
        &[
            installation(&disk, "/dir/nvngx_dlss.dll", Some(DllVersion::new(1, 0, 0, 0))),
            installation(&disk, "/dir/sl.common.dll", None),
        ],
        &[latest],
    );
    assert_eq!(plan.swaps.len(), 1);
    assert_eq!(plan.swaps[0].comparison, Comparison::Upgrade);
}

#[test]
fn dlss_only_planner_skips_streamline_and_reflex() {
    let mut disk = Disk::new();
    let names = ["nvngx_dlss.dll", "nvngx_dlssg.dll", "sl.common.dll", "nvlowlatencyvk.dll"];
    let mut installed = Vec::new();
    let mut latest = Vec::new();
    for name in names {
        let current = format!("/dir/{name}");
        let source = format!("/dir/new-{name}");
        disk.write(&current, b"old");
        disk.write(&source, name.as_bytes());
        installed.push(installation(&disk, &current, Some(DllVersion::new(1, 0, 0, 0))));
        latest.push(catalog_dll(&disk, name, DllVersion::new(2, 0, 0, 0), &source, "r"));
    }
    let plan = plan_dlss_only_upgrades("n", &installed, &latest);
    assert_eq!(plan.swaps.len(), 2);
    assert!(plan
        .swaps
        .iter()
        .all(|swap| classify_path(&swap.target_path).is_some_and(DllKind::is_dlss_family)));
    let all = plan_strict_upgrades("n", &installed, &latest);
    assert!(plan_touches_streamline(&[all]));
    assert!(!plan_touches_streamline(&[plan]));
    let streamline_only = plan_dlss_only_upgrades("n", &installed[2..], &latest[2..]);
    assert!(streamline_only.swaps.is_empty());
}

#[test]
fn advanced_profile_supports_mixed_upgrade_downgrade_and_restore() {
    let mut disk = Disk::new();
    let installed_paths = ["/dir/upgrade.dll", "/dir/downgrade.dll", "/dir/restore.dll"];
    for (path, name) in installed_paths.iter().zip(["upgrade.dll", "downgrade.dll", "restore.dll"])
    {
        disk.write(path, name.as_bytes());
    }
    let installed = vec![
        installation(&disk, installed_paths[0], Some(DllVersion::new(2, 0, 0, 0))),
        installation(&disk, installed_paths[1], Some(DllVersion::new(3, 0, 0, 0))),
        installation(&disk, installed_paths[2], Some(DllVersion::new(1, 0, 0, 0))),
    ];
    let sources = ["/dir/latest.bin", "/dir/cached.bin", "/dir/backup.bin"];
    for (index, source) in sources.iter().enumerate() {
        disk.write(source, &[u8::try_from(index).unwrap() + 20]);
    }
    let latest =
        catalog_dll(&disk, "upgrade.dll", DllVersion::new(4, 0, 0, 0), sources[0], "latest");
    let cached =
        catalog_dll(&disk, "downgrade.dll", DllVersion::new(1, 0, 0, 0), sources[1], "old");
    let backup = BackupRecord {
        sha256: disk.hash(sources[2]),
        content_path: place(sources[2]),
        original_path: place(installed_paths[2]),
        version: Some(DllVersion::new(1, 0, 0, 0)),
        created_unix: 1,
    };
    let mut profile = TargetProfile::new();
    profile.insert(installed[0].id.clone(), DesiredDll::LatestOfficial);
    profile.insert(
        installed[1].id.clone(),
        DesiredDll::Cached { release: cached.release.clone(), sha256: cached.sha256 },
    );
    profile.insert(
        installed[2].id.clone(),
        DesiredDll::Restore { backup_sha256: backup.sha256 },
    );

    let plan =
        plan_target_profile("mixed", &installed, &[latest], &[cached], &[backup], &profile)
            .unwrap();
    assert_eq!(plan.swaps.len(), 3);
    for (installation, expected) in [
        (&installed[0].id, Comparison::Upgrade),
        (&installed[1].id, Comparison::Downgrade),
        (&installed[2].id, Comparison::DifferentBuild),
    ] {
        assert_eq!(
            plan.swaps
                .iter()
                .find(|swap| &swap.installation == installation)
                .unwrap()
                .comparison,
            expected
        );
    }
}

#[test]
fn advanced_profile_rejects_unavailable_or_wrong_named_sources() {
    let mut disk = Disk::new();
    disk.write("/dir/right.dll", b"installed");
    disk.write("/dir/source.dll", b"source");
    let installed = installation(&disk, "/dir/right.dll", Some(DllVersion::new(1, 0, 0, 0)));
    let wrong =
        catalog_dll(&disk, "wrong.dll", DllVersion::new(2, 0, 0, 0), "/dir/source.dll", "r");
    let mut profile = TargetProfile::new();
    profile.insert(
        installed.id.clone(),
        DesiredDll::Cached { release: wrong.release.clone(), sha256: wrong.sha256 },
    );
    let result = plan_target_profile("n", &[installed], &[], &[wrong], &[], &profile);
    assert!(matches!(result, Err(CoreError::Validation(_))));
}

fn planned(target: &str, expected: [u8; 32], source: &str, sha256: [u8; 32]) -> PlannedSwap {
    PlannedSwap {
        game: GameId("g".into()),
        installation: DllInstallationId(target.into()),
        target_path: place(target),
        expected_sha256: expected,
        source_path: place(source),
        source_sha256: sha256,
        comparison: Comparison::Upgrade,
    }
}

#[test]
fn stale_target_is_not_backed_up_or_replaced() {
    let mut disk = Disk::new();
    disk.write("/dir/target.dll", b"changed");
    disk.write("/dir/source.dll", b"new");
    let plan = OperationPlan {
        nonce: "n".into(),
        swaps: vec![planned(
            "/dir/target.dll",
            [0; 32],
            "/dir/source.dll",
            disk.hash("/dir/source.dll"),
        )],
    };
    let store = BackupStore::new(place("/dir/backups"));
    let result = disk.execute(&plan, &store, 0);
    assert!(result.swaps[0].result.as_ref().unwrap_err().contains("stale"));
    assert!(!disk.files.keys().any(|path| path.starts_with("/dir/backups/objects")));
    assert_eq!(disk.files["/dir/target.dll"], b"changed");
}

#[test]
fn permission_denied_is_structured_on_swap_result() {
    let mut disk = Disk::new();
    disk.write("/dir/target.dll", b"old");
    disk.write("/dir/source.dll", b"new");
    disk.denied = true;
    let plan = OperationPlan {
        nonce: "n".into(),
        swaps: vec![planned(
            "/dir/target.dll",
            disk.hash("/dir/target.dll"),
            "/dir/source.dll",
            disk.hash("/dir/source.dll"),
        )],
    };
    let store = BackupStore::new(place("/dir/backups"));
    let result = disk.execute(&plan, &store, 0);
    assert!(result.swaps[0].denied);
    assert!(result.swaps[0].result.is_err());
}

#[test]
fn batch_continues_and_backup_is_content_addressed() {
    let mut disk = Disk::new();
    disk.write("/dir/source.dll", b"new");
    let source_hash = disk.hash("/dir/source.dll");
    let mut swaps = Vec::new();
    for target in ["/dir/works.dll", "/dir/fails.dll"] {
        disk.write(target, b"same original");
        swaps.push(planned(target, disk.hash(target), "/dir/source.dll", source_hash));
    }
    disk.fail.push("/dir/fails.dll".into());
    let store = BackupStore::new(place("/dir/backups"));
    let result = disk.execute(&OperationPlan { nonce: "n".into(), swaps }, &store, 1);
    assert!(result.swaps[0].result.is_ok());
    assert!(result.swaps[1].result.is_err());
    assert_eq!(
        disk.files.keys().filter(|path| path.starts_with("/dir/backups/objects/")).count(),
        1
    );
    assert_eq!(disk.files["/dir/fails.dll"], b"same original");
    assert_eq!(disk.backups.as_ref().unwrap().records.len(), 2);

    let hash = disk.hash("/dir/fails.dll");
    disk.back_up(&store, &place("/dir/fails.dll"), hash, 2).unwrap();
    let index = disk.backups.as_ref().unwrap();
    assert_eq!(index.records.len(), 2);
    assert_eq!(
        index
            .records
            .iter()
            .find(|record| record.original_path.text.ends_with("fails.dll"))
            .unwrap()
            .created_unix,
        2
    );
}

#[test]
fn a_replacement_that_went_wrong_is_rolled_back() {
    let mut disk = Disk::new();
    disk.write("/dir/target.dll", b"old");
    disk.write("/dir/source.dll", b"new");
    disk.spoil = Some(b"torn".to_vec());
    let swap = planned(
        "/dir/target.dll",
        disk.hash("/dir/target.dll"),
        "/dir/source.dll",
        disk.hash("/dir/source.dll"),
    );
    let store = BackupStore::new(place("/dir/backups"));
    let error = disk.swap(&swap, &store, 0).unwrap_err();
    assert_eq!(
        error.to_text(),
        "validation failed: replacement verification hash mismatch"
    );
    assert_eq!(disk.files["/dir/target.dll"], b"old");
}

#[test]
fn a_changed_source_is_not_installed() {
    let mut disk = Disk::new();
    disk.write("/dir/target.dll", b"old");
    disk.write("/dir/source.dll", b"tampered");
    let swap =
        planned("/dir/target.dll", disk.hash("/dir/target.dll"), "/dir/source.dll", [1; 32]);
    let store = BackupStore::new(place("/dir/backups"));
    let error = disk.swap(&swap, &store, 0).unwrap_err();
    assert_eq!(error.to_text(), "validation failed: cached source hash changed");
    assert_eq!(disk.files["/dir/target.dll"], b"old");
    assert!(disk.backups.is_none());
}

fn replacement(disk: &Disk) -> Replacement {
    Replacement {
        target: place("/game/nvngx_dlss.dll"),
        source: place("/cache/new.dll"),
        sha256: disk.hash("/cache/new.dll"),
        stage: stage_path(&place("/game/nvngx_dlss.dll"), 7, 255),
    }
}

fn run_replacement(disk: &mut Disk, replacement: &Replacement) -> Result<(), CoreError> {
    let mut stage = ReplaceStage::HashingSource;
    while let Some(action) = replacement.action(&stage) {
        let reply = disk.perform(action);
        stage = replacement.replace(stage, reply);
    }
    match stage {
        ReplaceStage::Ended { outcome } => outcome,
        _ => unreachable!(),
    }
}

#[test]
fn a_file_is_replaced_by_way_of_a_copy_beside_it() {
    let mut disk = Disk::new();
    disk.write("/game/nvngx_dlss.dll", b"old");
    disk.write("/cache/new.dll", b"new");
    let replacement = replacement(&disk);
    assert_eq!(
        replacement.stage,
        place(
            "/game/nvngx_dlss.dll.dlss-stage-7-000000000000000000000000000000ff"
        )
    );
    assert_eq!(run_replacement(&mut disk, &replacement), Ok(()));
    assert_eq!(disk.files["/game/nvngx_dlss.dll"], b"new");
    assert!(!disk.files.contains_key(&replacement.stage.text));
}

#[test]
fn a_replacement_by_changed_content_leaves_the_target_alone() {
    let mut disk = Disk::new();
    disk.write("/game/nvngx_dlss.dll", b"old");
    disk.write("/cache/new.dll", b"new");
    let replacement = replacement(&disk);
    disk.write("/cache/new.dll", b"tampered");
    assert_eq!(
        run_replacement(&mut disk, &replacement).unwrap_err().to_text(),
        "validation failed: cached source hash changed"
    );
    assert_eq!(disk.files["/game/nvngx_dlss.dll"], b"old");
    let torn = replacement.replace(
        ReplaceStage::HashingCopy,
        FileReply::Hashed(Ok([0; 32])),
    );
    let ReplaceStage::LookingForCopy { outcome: Err(error) } = torn else {
        panic!("a torn copy has to be cleared away");
    };
    assert_eq!(error.to_text(), "validation failed: staged source hash mismatch");
}

#[test]
fn a_copy_that_stays_behind_is_deleted() {
    let disk = {
        let mut disk = Disk::new();
        disk.write("/cache/new.dll", b"new");
        disk
    };
    let replacement = replacement(&disk);
    let failed = replacement.replace(
        ReplaceStage::Moving,
        FileReply::Done(Err(CoreError::PermissionDenied)),
    );
    let found = replacement.replace(failed, FileReply::Found(true));
    assert_eq!(
        replacement.action(&found),
        Some(FileAction::Remove { path: replacement.stage.clone() })
    );
    assert_eq!(
        replacement.replace(found, FileReply::Done(Ok(()))),
        ReplaceStage::Ended { outcome: Err(CoreError::PermissionDenied) }
    );
}

#[test]
fn imports_only_trusted_nvidia_x64_versioned_managed_dlls() {
    let mut disk = Disk::new();
    disk.write("/dir/nvngx_dlss.dll", b"dll bytes");
    let store = ImportStore::new(place("/dir/imports"));
    let source = "/dir/nvngx_dlss.dll";
    let first = disk.import(&store, source, 42).unwrap();
    let second = disk.import(&store, source, 42).unwrap();
    assert_eq!(first, second);
    assert_eq!(disk.imports.as_ref().unwrap().records.len(), 1);
    assert_eq!(disk.files[&first.content_path.text], b"dll bytes");

    disk.trust = trusted("NVIDIA Evil Corp");
    assert!(disk.import(&store, source, 42).is_err());
    disk.trust.signer = None;
    assert!(disk.import(&store, source, 42).is_err());
    disk.trust = TrustReport {
        signature: SignatureStatus::Untrusted,
        signer: Some("NVIDIA Corporation".into()),
        revocation: RevocationStatus::NotVerified,
        native_failure: None,
    };
    assert!(disk.import(&store, source, 42).is_err());
    disk.trust = trusted("NVIDIA Corporation");
    disk.x64 = false;
    assert!(disk.import(&store, source, 42).is_err());
    disk.x64 = true;
    disk.versioned = false;
    assert!(disk.import(&store, source, 42).is_err());
}

#[test]
fn rejects_unmanaged_and_oversize_imports_before_inspection() {
    let mut disk = Disk::new();
    let store = ImportStore::new(place("/dir/imports"));
    disk.write("/dir/dxgi.dll", b"dll");
    assert!(disk.import(&store, "/dir/dxgi.dll", 1).is_err());

    disk.write("/dir/nvngx_dlss.dll", b"");
    disk.sizes.insert("/dir/nvngx_dlss.dll".into(), MAX_IMPORTED_DLL_BYTES + 1);
    assert!(disk.import(&store, "/dir/nvngx_dlss.dll", 1).is_err());
}

#[test]
fn refused_imports_say_why() {
    let mut disk = Disk::new();
    disk.write("/dir/nvngx_dlss.dll", b"dll bytes");
    let store = ImportStore::new(place("/dir/imports"));
    let mut why = |disk: &mut Disk, path: &str| disk.import(&store, path, 1).unwrap_err().to_text();
    assert_eq!(why(&mut disk, "/"), "validation failed: import has no file name");
    assert_eq!(
        why(&mut disk, "/dir/dxgi.dll"),
        "validation failed: file name is not a managed NVIDIA DLL"
    );
    disk.x64 = false;
    assert_eq!(
        why(&mut disk, "/dir/nvngx_dlss.dll"),
        "validation failed: import is not an x86-64 PE DLL"
    );
    disk.x64 = true;
    disk.versioned = false;
    assert_eq!(
        why(&mut disk, "/dir/nvngx_dlss.dll"),
        "validation failed: import has no version resource"
    );
}

#[test]
fn imports_can_be_forgotten() {
    let record = |hash: u8| ImportedDllRecord {
        file_name: FileName::new("nvngx_dlss.dll"),
        version: DllVersion::new(3, 7, 10, 0),
        sha256: [hash; 32],
        signer: "NVIDIA Corporation".into(),
        imported_unix: 1,
        content_path: place("object"),
    };
    let mut index = ImportIndex { records: Vec::new() };
    index.upsert(record(1));
    index.upsert(record(2));
    index.upsert(record(1));
    assert_eq!(index.records.len(), 2);
    index.forget(&[1; 32]);
    assert_eq!(index.records.len(), 1);
    assert_eq!(index.records[0].sha256, [2; 32]);
}

#[test]
fn a_removed_import_leaves_neither_entry_nor_copy() {
    let mut disk = Disk::new();
    disk.write("/dir/nvngx_dlss.dll", b"first");
    disk.write("/dir/nvngx_dlssg.dll", b"second");
    let store = ImportStore::new(place("/dir/imports"));
    let first = disk.import(&store, "/dir/nvngx_dlss.dll", 1).unwrap();
    let second = disk.import(&store, "/dir/nvngx_dlssg.dll", 2).unwrap();

    assert_eq!(disk.remove_import(&store, &first.sha256), Ok(()));

    assert_eq!(disk.imports.as_ref().unwrap().records, vec![second.clone()]);
    assert!(!disk.files.contains_key(&first.content_path.text));
    assert_eq!(disk.files[&second.content_path.text], b"second");
    assert_eq!(disk.remove_import(&store, &first.sha256), Ok(()));
    assert_eq!(disk.imports.as_ref().unwrap().records, vec![second]);
}

#[test]
fn indexes_of_another_version_are_refused() {
    let imports = ImportStore::new(place("/dir/imports"));
    let backups = BackupStore::new(place("/dir/backups"));
    let other = "validation failed: unsupported schema version 2";
    let read = Envelope { schema_version: 2, payload: ImportIndex { records: Vec::new() } };
    assert_eq!(imports.load_index(Some(Ok(read))).unwrap_err().to_text(), other);
    let read = Envelope { schema_version: 2, payload: BackupIndex { records: Vec::new() } };
    assert_eq!(backups.load_index(Some(Ok(read))).unwrap_err().to_text(), other);
    assert_eq!(imports.load_index(None), Ok(ImportIndex { records: Vec::new() }));
}

#[test]
fn an_index_that_cannot_be_read_stops_a_removal() {
    let store = ImportStore::new(place("/dir/imports"));
    let stage = store.remove(
        &[1; 32],
        RemovalStage::LoadingIndex,
        ImportReply::Index(Err(CoreError::PermissionDenied)),
    );
    assert_eq!(stage, RemovalStage::Ended { outcome: Err(CoreError::PermissionDenied) });
}

#[test]
fn imported_catalog_entries_resolve_profiles() {
    let record = ImportedDllRecord {
        file_name: FileName::new("nvngx_dlss.dll"),
        version: DllVersion::new(3, 7, 10, 0),
        sha256: [7; 32],
        signer: "NVIDIA Corporation".into(),
        imported_unix: 1,
        content_path: place("object"),
    };
    let catalog = imported_catalog_dlls(&ImportIndex { records: vec![record] });
    assert!(is_imported_release(&catalog[0].release));
    let installed = DllInstallation {
        id: DllInstallationId("dll".into()),
        game_id: GameId("game".into()),
        path: place("game/nvngx_dlss.dll"),
        file_name: FileName::new("nvngx_dlss.dll"),
        metadata: DllMetadata {
            version: Some(DllVersion::new(3, 5, 0, 0)),
            sha256: [3; 32],
            signature: SignatureStatus::Trusted,
            x86_64: true,
        },
    };
    let mut profile = TargetProfile::new();
    profile.insert(
        installed.id.clone(),
        DesiredDll::Cached { release: catalog[0].release.clone(), sha256: catalog[0].sha256 },
    );
    let plan =
        plan_target_profile("preview", &[installed], &[], &catalog, &[], &profile).unwrap();
    assert_eq!(plan.swaps.len(), 1);
    assert_eq!(plan.swaps[0].source_path, place("object"));
    assert!(is_nvidia_signer("nvidia corporation"));
    assert!(!is_nvidia_signer("NVIDIA Corporation LLC"));
}

#[test]
fn import_identifiers_hold_the_digest() {
    let mut hash = [0; 32];
    hash[0] = 0xab;
    assert_eq!(
        imported_release_id(hash),
        ReleaseId(format!("import:ab{}", "0".repeat(62)))
    );
    assert!(!is_imported_release(&ReleaseId::new("v2.12.0")));
}

fn meta(version: Option<DllVersion>, hash: u8) -> DllMetadata {
    DllMetadata {
        version,
        sha256: [hash; 32],
        signature: SignatureStatus::Trusted,
        x86_64: true,
    }
}

fn dll(version: DllVersion, hash: u8) -> CatalogDll {
    CatalogDll {
        file_name: FileName::new("x.dll"),
        version,
        sha256: [hash; 32],
        source: place("x"),
        release: ReleaseId::new("r"),
    }
}

#[test]
fn comparison_covers_version_and_hash_semantics() {
    let v = DllVersion::new(1, 2, 3, 4);
    assert_eq!(compare_dll(Some(&meta(Some(v), 1)), Some(&dll(v, 1))), Comparison::Identical);
    assert_eq!(
        compare_dll(Some(&meta(Some(v), 1)), Some(&dll(v, 2))),
        Comparison::DifferentBuild
    );
    assert_eq!(
        compare_dll(Some(&meta(Some(v), 1)), Some(&dll(DllVersion::new(2, 0, 0, 0), 2))),
        Comparison::Upgrade
    );
    assert_eq!(compare_dll(Some(&meta(None, 1)), Some(&dll(v, 2))), Comparison::Unknown);
    assert_eq!(compare_dll(Some(&meta(Some(v), 1)), None), Comparison::Unavailable);
}

#[test]
fn comparisons_mirror_each_other() {
    let old = Some(DllVersion::new(1, 0, 0, 0));
    let new = Some(DllVersion::new(1, 0, 0, 1));
    assert_eq!(compare_target(old, [1; 32], new, [2; 32]), Comparison::Upgrade);
    assert_eq!(compare_target(new, [2; 32], old, [1; 32]), Comparison::Downgrade);
    assert_eq!(DllVersion::new(1, 2, 3, 4).to_text(), "1.2.3.4");
    assert_eq!(DllVersion::new(1, 0, 0, 2).number(), (1 << 48) + 2);
}

#[test]
fn plans_are_summed_up() {
    let mut upgrade = planned("/a.dll", [0; 32], "/s", [1; 32]);
    upgrade.comparison = Comparison::Upgrade;
    let mut downgrade = planned("/b.dll", [0; 32], "/s", [1; 32]);
    downgrade.comparison = Comparison::Downgrade;
    let plan = OperationPlan { nonce: "n".into(), swaps: vec![upgrade, downgrade] };
    let summary = plan.summary();
    assert_eq!(summary.dlls, 2);
    assert_eq!(summary.upgrades, 1);
    assert_eq!(summary.downgrades, 1);
}

#[test]
fn families_are_told_by_name() {
    assert!(is_dlss_dll(&FileName::new("nvngx_dlssd.dll")));
    assert!(!is_dlss_dll(&FileName::new("sl.dlss.dll")));
    assert!(is_managed_dll(&FileName::new("nvngx_other.dll")));
    assert!(!is_managed_dll(&FileName::Other("nvngx_dlss.dll".into())));
    assert_eq!(DllKind::classify(&FileName::new("SL.Common.DLL")), Some(DllKind::Streamline));
}

fn backup_check(
    content: u8,
    hash: Result<[u8; 32], CoreError>,
    trust: Result<TrustReport, CoreError>,
) -> BackupCheck {
    BackupCheck {
        record: BackupRecord {
            sha256: [content; 32],
            content_path: place(&format!("/backups/objects/{content}")),
            original_path: place("/game/nvngx_dlss.dll"),
            version: None,
            created_unix: 7,
        },
        shown: r"C:\game\nvngx_dlss.dll".into(),
        hash,
        trust,
    }
}

#[test]
fn backups_that_fail_their_check_are_not_offered() {
    let offline = TrustReport {
        revocation: RevocationStatus::UnavailableFallback,
        ..trusted("NVIDIA Corporation")
    };
    let report = load_report(vec![
        backup_check(1, Ok([1; 32]), Ok(trusted("NVIDIA Corporation"))),
        backup_check(2, Ok([9; 32]), Ok(trusted("NVIDIA Corporation"))),
        backup_check(3, Ok([3; 32]), Ok(offline)),
        backup_check(4, Ok([4; 32]), Ok(trusted("Example Publisher"))),
        backup_check(5, Err(missing()), Ok(trusted("NVIDIA Corporation"))),
        backup_check(6, Ok([6; 32]), Err(CoreError::Cancelled)),
    ]);
    let usable: Vec<u8> = report.usable.iter().map(|record| record.sha256[0]).collect();
    assert_eq!(usable, vec![1, 3]);
    let rejected: Vec<(u8, &str)> = report
        .rejected
        .iter()
        .map(|backup| (backup.record.sha256[0], backup.reason.as_str()))
        .collect();
    assert_eq!(
        rejected,
        vec![
            (2, "backup object has an unexpected hash"),
            (4, "backup failed NVIDIA trust validation"),
            (5, "I/O error: not found"),
            (6, "operation was cancelled"),
        ]
    );
    assert_eq!(report.offline_revocation_fallbacks, 1);
}
