use dlss_updater::archive::{
    admit_entry, count_unpacked, CatalogError, EntryFacts, ExtractAction, ExtractReply,
    ExtractStage, Extraction, ValidatedRelease, MAX_DLL_BYTES, MAX_ENTRIES,
};
use dlss_updater::digest::digest_of;
use dlss_updater::files::{FileAction, FileReply};
use dlss_updater::github::{GithubError, MAX_ARCHIVE_BYTES};
use dlss_updater::model::{
    DllMetadata, DllVersion, FileName, ReleaseId, ReleaseState, ReleaseValidation, SignatureStatus,
};
use dlss_updater::paths::{FilePath, PathStyle};
use dlss_updater::release::{
    ingest_action, prepare_action, prepare_release, publish_plan, stage_progress, unique_mark,
    validate_and_extract, IngestAction, IngestReply, IngestStage, PrepareAction, PrepareError,
    PrepareReply, PrepareStage, ReleaseProgress,
};
use dlss_updater::traits::CoreError;
use dlss_updater::trust::{NativeTrustFailure, RevocationStatus, TrustPolicy, TrustReport};
use std::collections::BTreeMap;
use std::io::{Cursor, Read, Write};

fn place(text: &str) -> FilePath {
    FilePath::parse(PathStyle::Windows, text)
}

/// Files by path, kept in memory.
struct Disk {
    files: BTreeMap<String, Vec<u8>>,
    /// Paths that cannot be deleted.
    locked: Vec<String>,
}

fn missing() -> CoreError {
    CoreError::Io { permission_denied: false, message: "not found".into() }
}

impl Disk {
    fn new() -> Disk {
        Disk { files: BTreeMap::new(), locked: Vec::new() }
    }

    fn holds(&self, path: &str) -> bool {
        let below = format!("{path}/");
        self.files.keys().any(|file| file == path || file.starts_with(&below))
    }

    fn rename(&mut self, from: &str, to: &str) -> Result<(), CoreError> {
        if !self.holds(from) {
            return Err(missing());
        }
        let below = format!("{from}/");
        let old = std::mem::take(&mut self.files);
        for (file, bytes) in old {
            let moved = if file == from {
                to.to_owned()
            } else if let Some(rest) = file.strip_prefix(&below) {
                format!("{to}/{rest}")
            } else {
                file
            };
            self.files.insert(moved, bytes);
        }
        Ok(())
    }

    fn remove_tree(&mut self, path: &str) -> Result<(), CoreError> {
        if self.locked.iter().any(|locked| locked == path) {
            return Err(CoreError::PermissionDenied);
        }
        let below = format!("{path}/");
        self.files.retain(|file, _| file != path && !file.starts_with(&below));
        Ok(())
    }

    fn perform(
        &mut self,
        action: FileAction,
        verify: &dyn Fn(&str, &[u8], TrustPolicy) -> TrustReport,
    ) -> FileReply {
        match action {
            FileAction::Inspect { path } => FileReply::Inspected(
                self.files.get(&path.text).map(|bytes| inspect(bytes)).ok_or_else(missing),
            ),
            FileAction::Verify { path, policy } => FileReply::Verified(
                self.files
                    .get(&path.text)
                    .map(|bytes| verify(&path.text, bytes, policy))
                    .ok_or_else(missing),
            ),
            FileAction::Measure { path } => FileReply::Measured(
                self.files.get(&path.text).map(|bytes| bytes.len() as u64).ok_or_else(missing),
            ),
            FileAction::Hash { path } => FileReply::Hashed(
                self.files.get(&path.text).map(|bytes| digest_of(bytes)).ok_or_else(missing),
            ),
            FileAction::Look { path } => FileReply::Found(self.holds(&path.text)),
            FileAction::CreateDirectory { .. } => FileReply::Done(Ok(())),
            FileAction::Rename { from, to } => FileReply::Done(self.rename(&from.text, &to.text)),
            FileAction::Remove { path } => {
                FileReply::Done(self.files.remove(&path.text).map(|_| ()).ok_or_else(missing))
            }
            FileAction::RemoveTree { path } => FileReply::Done(self.remove_tree(&path.text)),
            FileAction::Copy { .. } | FileAction::Duplicate { .. } | FileAction::Resolve { .. } => {
                panic!("an extraction copies nothing")
            }
        }
    }
}

fn inspect(bytes: &[u8]) -> DllMetadata {
    DllMetadata {
        version: Some(DllVersion::new(2, 12, 0, u16::try_from(bytes.len()).unwrap())),
        sha256: digest_of(bytes),
        signature: SignatureStatus::Trusted,
        x86_64: !bytes.starts_with(b"x86"),
    }
}

fn trust(trusted: bool) -> TrustReport {
    TrustReport {
        signature: if trusted {
            SignatureStatus::Trusted
        } else {
            SignatureStatus::Untrusted
        },
        signer: trusted.then(|| "NVIDIA Corporation".to_owned()),
        revocation: if trusted {
            RevocationStatus::Verified
        } else {
            RevocationStatus::NotVerified
        },
        native_failure: None,
    }
}

fn archive(entries: &[(&str, &[u8])]) -> Vec<u8> {
    let mut writer = zip::ZipWriter::new(Cursor::new(Vec::new()));
    for (name, bytes) in entries {
        writer.start_file(*name, zip::write::SimpleFileOptions::default()).unwrap();
        writer.write_all(bytes).unwrap();
    }
    writer.finish().unwrap().into_inner()
}

fn zip_error(error: zip::result::ZipError) -> CatalogError {
    CatalogError::Zip(error.to_string())
}

fn describe(archive: &[u8], index: usize) -> Result<EntryFacts, CatalogError> {
    let mut zip = zip::ZipArchive::new(Cursor::new(archive)).map_err(zip_error)?;
    let entry = zip.by_index(index).map_err(zip_error)?;
    Ok(EntryFacts {
        raw_name: entry.name().map_err(zip_error)?.into_owned(),
        enclosed_name: entry.enclosed_name().map(|path| path.to_string_lossy().into_owned()),
        size: entry.size(),
    })
}

fn unpack(archive: &[u8], index: usize) -> Result<Vec<u8>, CatalogError> {
    let mut zip = zip::ZipArchive::new(Cursor::new(archive)).map_err(zip_error)?;
    let mut entry = zip.by_index(index).map_err(zip_error)?;
    let mut bytes = Vec::new();
    entry.read_to_end(&mut bytes).unwrap();
    count_unpacked(0, bytes.len())?;
    Ok(bytes)
}

/// Extracts the archive at `/release.zip` into the staging directory.
fn extract(
    disk: &mut Disk,
    staging: &FilePath,
    release: &str,
    verify: &dyn Fn(&str, &[u8], TrustPolicy) -> TrustReport,
) -> Result<ValidatedRelease, CatalogError> {
    let packed = disk.files.get("/release.zip").unwrap().clone();
    let mut work = Extraction::new(
        ReleaseId::new(release),
        place("/release.zip"),
        staging.clone(),
    );
    let mut stage = ExtractStage::Measuring;
    loop {
        let reply = match work.action(&stage) {
            ExtractAction::File(action) => ExtractReply::File(disk.perform(action, verify)),
            ExtractAction::Open => ExtractReply::Opened(
                zip::ZipArchive::new(Cursor::new(&packed[..]))
                    .map(|zip| zip.len())
                    .map_err(zip_error),
            ),
            ExtractAction::Describe { index } => ExtractReply::Entry(describe(&packed, index)),
            ExtractAction::Unpack { index, to } => {
                let bytes = unpack(&packed, index);
                ExtractReply::Unpacked(bytes.map(|bytes| {
                    let digest = digest_of(&bytes);
                    disk.files.insert(to.text.clone(), bytes);
                    digest
                }))
            }
            ExtractAction::Rest => match stage {
                ExtractStage::Ended { outcome } => return outcome,
                _ => unreachable!(),
            },
        };
        stage = work.advance(stage, reply);
    }
}

/// Extracts the archive at `/release.zip` beside `/cache/<leaf>` and puts the
/// result in its place.
fn ingest(
    disk: &mut Disk,
    leaf: &str,
    release: &str,
    verify: &dyn Fn(&str, &[u8], TrustPolicy) -> TrustReport,
) -> Result<ValidatedRelease, CatalogError> {
    let plan = publish_plan(PathStyle::Windows, &place("/cache").join(leaf), "1").unwrap();
    let mut stage = IngestStage::CreatingParent;
    loop {
        let reply = match ingest_action(&plan, &stage) {
            IngestAction::File(action) => IngestReply::File(disk.perform(action, verify)),
            IngestAction::Extract => {
                IngestReply::Extracted(extract(disk, &plan.staging, release, verify))
            }
            IngestAction::Rest => match stage {
                IngestStage::Ended { outcome } => return outcome,
                _ => unreachable!(),
            },
        };
        stage = validate_and_extract(&plan, stage, reply);
    }
}

fn disk_with(entries: &[(&str, &[u8])]) -> Disk {
    let mut disk = Disk::new();
    disk.files.insert("/release.zip".into(), archive(entries));
    disk
}

#[test]
fn extracts_only_immediate_production_dlls() {
    let mut disk = disk_with(&[
        ("bin/x64/sl.common.dll", b"pe64"),
        ("bin/x64/development/sl.common.dll", b"debug"),
        ("bin/x64/readme.txt", b"text"),
        ("bin/x86/sl.common.dll", b"x86"),
    ]);
    let dlls =
        ingest(&mut disk, "output", "v2.12.0", &|_, _, _| trust(true)).unwrap();
    assert_eq!(dlls.dlls.len(), 1);
    assert_eq!(dlls.dlls[0].file_name, FileName::new("sl.common.dll"));
    assert_eq!(disk.files["/cache/output/sl.common.dll"], b"pe64");
}

fn report(
    signature: SignatureStatus,
    signer: &str,
    revocation: RevocationStatus,
    native_status: Option<i32>,
) -> TrustReport {
    TrustReport {
        signature,
        signer: Some(signer.to_owned()),
        revocation,
        native_failure: native_status
            .map(|status| NativeTrustFailure { status, reason: "test trust failure".into() }),
    }
}

#[test]
fn enforces_nvidia_signer_and_aggregates_native_rejections() {
    let mut disk =
        disk_with(&[("bin/x64/sl.one.dll", b"one"), ("bin/x64/sl.two.dll", b"two")]);
    let result = ingest(&mut disk, "output", "r", &|_, _, policy| {
        assert_eq!(policy, TrustPolicy::OfficialNvidiaCatalog);
        report(
            SignatureStatus::Untrusted,
            "Example Publisher",
            RevocationStatus::NotVerified,
            Some(0x800B_0109_u32 as i32),
        )
    });
    let Err(CatalogError::RejectedCandidates(message)) = result else {
        panic!("unexpected validation result: {result:?}");
    };
    assert!(message.contains("sl.one.dll"));
    assert!(message.contains("sl.two.dll"));
    assert!(message.contains("0x800B0109"));
    assert!(message.contains("Example Publisher"));
}

#[test]
fn records_offline_revocation_fallback_as_a_warning_quality() {
    let mut disk = disk_with(&[("bin/x64/sl.common.dll", b"valid")]);
    let validated = ingest(&mut disk, "output", "r", &|_, _, policy| {
        assert_eq!(policy, TrustPolicy::OfficialNvidiaCatalog);
        report(
            SignatureStatus::Trusted,
            "NVIDIA Corporation",
            RevocationStatus::UnavailableFallback,
            Some(0x8009_2013_u32 as i32),
        )
    })
    .unwrap();
    assert_eq!(validated.validation, ReleaseValidation::RevocationUnavailableFallback);
}

#[test]
fn trusted_non_nvidia_publisher_is_rejected() {
    let mut disk = disk_with(&[("bin/x64/sl.common.dll", b"valid")]);
    let result = ingest(&mut disk, "output", "r", &|_, _, policy| {
        assert_eq!(policy, TrustPolicy::OfficialNvidiaCatalog);
        report(
            SignatureStatus::Trusted,
            "Example Publisher",
            RevocationStatus::Verified,
            None,
        )
    });
    let Err(CatalogError::RejectedCandidates(message)) = result else {
        panic!("unexpected validation result: {result:?}");
    };
    assert!(message.contains("Example Publisher"));
}

#[test]
fn rejects_traversal_even_when_entry_would_not_be_extracted() {
    let mut disk = disk_with(&[("../outside.txt", b"bad")]);
    let result = ingest(&mut disk, "output", "r", &|_, _, _| trust(true));
    assert!(matches!(result, Err(CatalogError::UnsafePath(_))));
}

#[test]
fn rejects_case_insensitive_duplicate_dll_names() {
    let mut disk =
        disk_with(&[("bin/x64/sl.common.dll", b"one"), ("BIN/X64/SL.COMMON.DLL", b"two")]);
    let result = ingest(&mut disk, "output", "r", &|_, _, _| trust(true));
    assert!(matches!(result, Err(CatalogError::DuplicateEntry(_))));
}

#[test]
fn rejects_case_insensitive_duplicates_outside_production_tree() {
    let mut disk = disk_with(&[("docs/readme.txt", b"one"), ("DOCS/README.TXT", b"two")]);
    let result = ingest(&mut disk, "output", "r", &|_, _, _| trust(true));
    assert!(matches!(result, Err(CatalogError::DuplicateEntry(_))));
}

#[test]
fn rejects_untrusted_and_non_x64_candidates() {
    let mut disk = disk_with(&[("bin/x64/sl.common.dll", b"valid")]);
    let untrusted = ingest(&mut disk, "untrusted", "r", &|_, _, _| trust(false));
    assert!(matches!(untrusted, Err(CatalogError::RejectedCandidates(_))));

    let mut disk = disk_with(&[("bin/x64/sl.common.dll", b"x86-binary")]);
    let wrong_arch = ingest(&mut disk, "wrong-arch", "r", &|_, _, _| trust(true));
    assert!(matches!(wrong_arch, Err(CatalogError::InvalidPe(_))));
}

#[test]
fn ignores_nv_low_latency_vk_candidate() {
    let mut disk = disk_with(&[
        ("bin/x64/NvLowLatencyVk.DLL", b"x86-binary"),
        ("bin/x64/nvngx_dlss.dll", b"trusted"),
    ]);
    let dlls = ingest(&mut disk, "output", "r", &|_, _, _| trust(true)).unwrap();
    assert_eq!(dlls.dlls.len(), 1);
    assert_eq!(dlls.dlls[0].file_name, FileName::new("nvngx_dlss.dll"));
    assert!(!disk.holds("/cache/output/NvLowLatencyVk.DLL"));
}

#[test]
fn skips_untrusted_candidate_when_trusted_dlls_remain() {
    let mut disk = disk_with(&[
        ("bin/x64/NvLowLatencyVk.dll", b"untrusted"),
        ("bin/x64/nvngx_dlss.dll", b"trusted"),
    ]);
    let dlls = ingest(&mut disk, "output", "r", &|_, bytes, _| {
        trust(bytes != b"untrusted")
    })
    .unwrap();
    assert_eq!(dlls.dlls.len(), 1);
    assert_eq!(dlls.dlls[0].file_name, FileName::new("nvngx_dlss.dll"));
    assert!(!disk.holds("/cache/output/NvLowLatencyVk.dll"));
}

#[test]
fn an_untrusted_candidate_is_deleted_again() {
    let mut disk = disk_with(&[
        ("bin/x64/sl.untrusted.dll", b"untrusted"),
        ("bin/x64/nvngx_dlss.dll", b"trusted"),
    ]);
    let dlls = ingest(&mut disk, "output", "r", &|_, bytes, _| {
        trust(bytes != b"untrusted")
    })
    .unwrap();
    assert_eq!(dlls.dlls.len(), 1);
    assert_eq!(disk.files.len(), 2);
}

#[test]
fn authenticode_validation_keeps_dll_extension_during_staging() {
    let mut disk = disk_with(&[("bin/x64/nvngx_dlss.dll", b"trusted")]);
    let dlls = ingest(&mut disk, "output", "r", &|path, _, _| {
        trust(path.to_ascii_lowercase().ends_with(".dll"))
    })
    .unwrap();
    assert_eq!(dlls.dlls.len(), 1);
    assert!(disk.holds("/cache/output/nvngx_dlss.dll"));
}

#[test]
fn failed_validation_preserves_ready_cache_and_cleans_staging() {
    let mut disk = disk_with(&[
        ("bin/x64/sl.common.dll", b"valid"),
        ("bin/x64/sl.bad.dll", b"x86-binary"),
    ]);
    disk.files.insert("/cache/release/ready.dll".into(), b"previous".to_vec());

    let result = ingest(&mut disk, "release", "r", &|_, _, _| trust(true));

    assert!(matches!(result, Err(CatalogError::InvalidPe(_))));
    assert_eq!(disk.files["/cache/release/ready.dll"], b"previous");
    assert!(disk.files.keys().all(|name| !name.contains("staging")));
}

#[test]
fn successful_validation_commits_complete_release_at_once() {
    let mut disk = disk_with(&[("bin/x64/sl.common.dll", b"valid")]);
    disk.files.insert("/cache/release/stale.dll".into(), b"previous".to_vec());

    let dlls = ingest(&mut disk, "release", "r", &|_, _, _| trust(true)).unwrap();

    assert!(!disk.holds("/cache/release/stale.dll"));
    assert_eq!(dlls.dlls[0].source, place("/cache/release/sl.common.dll"));
    assert!(disk.holds(&dlls.dlls[0].source.text));
}

#[test]
fn an_old_release_that_stays_brings_itself_back() {
    let mut disk = disk_with(&[("bin/x64/sl.common.dll", b"valid")]);
    disk.files.insert("/cache/release/ready.dll".into(), b"previous".to_vec());
    disk.locked.push("/cache/.release.previous-1".into());

    let result = ingest(&mut disk, "release", "r", &|_, _, _| trust(true));

    assert!(matches!(result, Err(CatalogError::Io { .. })));
    assert_eq!(disk.files["/cache/release/ready.dll"], b"previous");
    assert!(!disk.holds("/cache/release/sl.common.dll"));
    assert!(disk.files.keys().all(|name| !name.contains("staging")));
}

#[test]
fn an_archive_without_production_dlls_is_refused() {
    let mut disk = disk_with(&[("docs/readme.txt", b"text")]);
    let result = ingest(&mut disk, "output", "r", &|_, _, _| trust(true));
    assert_eq!(result, Err(CatalogError::NoProductionDlls));
}

#[test]
fn what_is_no_archive_is_refused() {
    let mut disk = Disk::new();
    disk.files.insert("/release.zip".into(), b"not a zip".to_vec());
    let result = ingest(&mut disk, "output", "r", &|_, _, _| trust(true));
    assert!(matches!(result, Err(CatalogError::Zip(_))));
}

fn extraction() -> Extraction {
    Extraction::new(
        ReleaseId::new("r"),
        place("/release.zip"),
        place("/staging"),
    )
}

#[test]
fn archives_have_limits() {
    let mut work = extraction();
    assert_eq!(
        work.advance(
            ExtractStage::Measuring,
            ExtractReply::File(FileReply::Measured(Ok(MAX_ARCHIVE_BYTES + 1)))
        ),
        ExtractStage::Ended { outcome: Err(CatalogError::TooLarge) }
    );
    assert_eq!(
        work.advance(ExtractStage::Opening, ExtractReply::Opened(Ok(MAX_ENTRIES + 1))),
        ExtractStage::Ended { outcome: Err(CatalogError::TooManyEntries) }
    );
    assert_eq!(count_unpacked(MAX_DLL_BYTES - 1, 1), Ok(MAX_DLL_BYTES));
    assert_eq!(count_unpacked(MAX_DLL_BYTES, 1), Err(CatalogError::TooLarge));
}

#[test]
fn a_large_entry_is_refused_only_where_it_would_be_taken_out() {
    let entry = |name: &str| EntryFacts {
        raw_name: name.into(),
        enclosed_name: Some(name.into()),
        size: MAX_DLL_BYTES + 1,
    };
    let mut seen = Vec::new();
    assert_eq!(admit_entry(&mut seen, &entry("docs/big.bin")), Ok(None));
    assert_eq!(
        admit_entry(&mut seen, &entry("bin/x64/sl.common.dll")),
        Err(CatalogError::TooLarge)
    );
    assert_eq!(
        admit_entry(&mut seen, &entry("Docs\\Big.bin")),
        Err(CatalogError::DuplicateEntry("Docs/Big.bin".into()))
    );
    let outside =
        EntryFacts { raw_name: "..\\x".into(), enclosed_name: None, size: 0 };
    assert_eq!(
        admit_entry(&mut seen, &outside),
        Err(CatalogError::UnsafePath("../x".into()))
    );
}

#[test]
fn archive_errors_have_wordings() {
    assert_eq!(CatalogError::TooLarge.to_text(), "archive exceeds safety limit");
    assert_eq!(
        CatalogError::Inspection("a.dll".into(), "no".into()).to_text(),
        "inspection failed for a.dll: no"
    );
    assert_eq!(
        CatalogError::Untrusted("a.dll".into()).to_text(),
        "candidate is not Authenticode trusted: a.dll"
    );
    assert_eq!(
        CatalogError::NoProductionDlls.to_text(),
        "archive contains no immediate production x86-64 DLLs"
    );
}

#[test]
fn a_broken_copy_in_the_cache_is_downloaded_again_once() {
    let path = place("/cache/v1.zip");
    let mut stage = PrepareStage::LookingForArchive;
    let mut downloads = 0;
    let mut extractions = 0;
    loop {
        let reply = match prepare_action(&path, &stage) {
            PrepareAction::File(FileAction::Look { .. }) => {
                PrepareReply::File(FileReply::Found(true))
            }
            PrepareAction::File(_) => PrepareReply::File(FileReply::Done(Ok(()))),
            PrepareAction::CheckArchive => PrepareReply::Checked(Ok(())),
            PrepareAction::Download => {
                downloads += 1;
                PrepareReply::Downloaded(Ok(()))
            }
            PrepareAction::Extract => {
                extractions += 1;
                PrepareReply::Extracted(Err(CatalogError::InvalidPe("a.dll".into())))
            }
            PrepareAction::Rest => break,
        };
        stage = prepare_release(stage, reply);
    }
    assert_eq!(downloads, 1);
    assert_eq!(extractions, 2);
    assert_eq!(
        stage,
        PrepareStage::Ended {
            outcome: Err(PrepareError::Catalog(CatalogError::InvalidPe("a.dll".into())))
        }
    );
}

#[test]
fn an_archive_that_does_not_pass_its_check_is_fetched_anew() {
    let checked = prepare_release(
        PrepareStage::CheckingArchive,
        PrepareReply::Checked(Err(GithubError::DigestMismatch)),
    );
    assert_eq!(checked, PrepareStage::RemovingArchive);
    let removed = prepare_release(checked, PrepareReply::File(FileReply::Done(Ok(()))));
    assert_eq!(removed, PrepareStage::Downloading);
    assert_eq!(
        stage_progress(&removed, 10),
        [ReleaseProgress { state: ReleaseState::Downloading, received: 0, total: Some(10) }]
    );
    assert_eq!(stage_progress(&PrepareStage::Extracting { fresh: true }, 10).len(), 2);
}

#[test]
fn publications_are_told_apart() {
    assert_eq!(
        unique_mark(7, 255, 16),
        "7-000000000000000000000000000000ff-0000000000000010"
    );
    let plan = publish_plan(PathStyle::Windows, &place("/cache/v1"), "m").unwrap();
    assert_eq!(plan.parent, place("/cache"));
    assert_eq!(plan.destination, place("/cache/v1"));
    assert_eq!(plan.staging, place("/cache/.v1.staging-m"));
    assert_eq!(plan.previous, place("/cache/.v1.previous-m"));
}

#[test]
fn a_release_needs_a_directory_to_stand_in() {
    let plan = |text: &str| publish_plan(PathStyle::Windows, &place(text), "m");
    assert_eq!(
        plan(r"C:\"),
        Err(CatalogError::Io {
            permission_denied: false,
            message: "release destination has no parent".into(),
        })
    );
    // A name that is missing, or is no text, is replaced.
    assert_eq!(plan("/cache/..").unwrap().staging, place("/cache/.release.staging-m"));
    assert_eq!(plan("/cache/\0dcff").unwrap().previous, place("/cache/.release.previous-m"));
    assert_eq!(plan("v1").unwrap().staging, place(".v1.staging-m"));
}

#[test]
fn a_candidate_that_spoils_the_archive_is_deleted_first() {
    for (bytes, versioned) in [(&b"x86-binary"[..], true), (&b"x64"[..], false)] {
        let mut work = extraction();
        let metadata = DllMetadata {
            version: versioned.then(|| DllVersion::new(1, 0, 0, 0)),
            ..inspect(bytes)
        };
        let mut stage = work.advance(
            ExtractStage::Inspecting { index: 0, name: "a.dll".into(), sha256: [1; 32] },
            ExtractReply::File(FileReply::Inspected(Ok(metadata))),
        );
        if !versioned {
            stage = work.advance(stage, ExtractReply::File(FileReply::Verified(Ok(trust(true)))));
        }
        assert_eq!(
            work.action(&stage),
            ExtractAction::File(FileAction::Remove { path: place("/staging/.partial-a.dll") })
        );
        assert_eq!(
            work.advance(stage, ExtractReply::File(FileReply::Done(Err(missing())))),
            ExtractStage::Ended { outcome: Err(CatalogError::InvalidPe("a.dll".into())) }
        );
    }
}

#[test]
fn accepted_dlls_are_listed_in_the_order_of_the_archive() {
    let mut disk = disk_with(&[
        ("bin/x64/sl.pcl.dll", b"one"),
        ("docs/readme.txt", b"text"),
        ("bin/x64/sl.bad.dll", b"two"),
        ("bin/x64/nvngx_dlss.dll", b"three"),
        ("bin/x64/development/sl.dev.dll", b"four"),
        ("BIN/X64/a.dll", b"five"),
    ]);
    let found = ingest(&mut disk, "v1", "r", &|path, _, _| trust(!path.contains("bad"))).unwrap();
    let names: Vec<&FileName> = found.dlls.iter().map(|dll| &dll.file_name).collect();
    assert_eq!(
        names,
        [
            &FileName::new("sl.pcl.dll"),
            &FileName::new("nvngx_dlss.dll"),
            &FileName::new("a.dll")
        ]
    );
    let digests: Vec<[u8; 32]> = found.dlls.iter().map(|dll| dll.sha256).collect();
    assert_eq!(digests, [digest_of(b"one"), digest_of(b"three"), digest_of(b"five")]);
}
