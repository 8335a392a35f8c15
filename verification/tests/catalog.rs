use dlss_updater::catalog::{
    adopt_refresh, catalog_snapshot, conclude_refresh, merge_catalog_refresh, CatalogCacheIndex,
    RefreshError,
};
use dlss_updater::desk::{canonicalize_roots, Desk};
use dlss_updater::digest::{digest_of, hex_hash, ContentHasher};
use dlss_updater::download::{
    download_plan, DownloadAction, DownloadPlan, DownloadReply, DownloadStage,
};
use dlss_updater::files::{check_schema, Envelope, FileAction, FileReply};
use dlss_updater::github::{
    begin_download, check_download, continue_download, latest_asset, next_link, parse_digest,
    parse_sha256, request_etag, select_asset, select_asset_published, sort_latest_first,
    validate_cached_archive, ApiAsset, ApiRelease, DownloadProgress, GithubCatalogClient,
    GithubError, OfficialAsset, PageReply, RefreshStage, ReleaseRefresh, MAX_ARCHIVE_BYTES,
    MAX_PAGES,
};
use dlss_updater::imports::{imported_release_id, ImportIndex, ImportedDllRecord};
use dlss_updater::model::{
    CachedRelease, CatalogDll, DesiredDll, DllInstallation, DllInstallationId, DllMetadata,
    DllVersion, FileName, GameId, GameInstall, ReleaseId, ReleaseMetadata, ReleaseState,
    ReleaseValidation, SignatureStatus, StoreKind,
};
use dlss_updater::paths::{FilePath, PathStyle};
use dlss_updater::profile::TargetProfile;
use dlss_updater::release::{PrepareError, ReleaseProgress};
use dlss_updater::traits::CoreError;
use dlss_updater::worker::{prepare_failure, WorkerError};

fn place(text: &str) -> FilePath {
    FilePath::parse(PathStyle::Windows, text)
}

fn asset(tag: &str, published_unix: i64) -> OfficialAsset {
    OfficialAsset {
        release: ReleaseMetadata {
            id: ReleaseId(tag.into()),
            tag: tag.into(),
            asset_name: format!("streamline-sdk-{tag}.zip"),
            published_unix,
        },
        download_url: format!("https://example.invalid/{tag}.zip"),
        size: 1,
        digest: None,
    }
}

fn cached(metadata: ReleaseMetadata, state: ReleaseState) -> CachedRelease {
    CachedRelease { metadata, state, dlls: Vec::new(), validation: ReleaseValidation::Full }
}

#[test]
fn catalog_snapshot_merges_ready_cache_and_sorts_latest_explicitly() {
    let old = asset("v1", 1);
    let new = asset("v2", 2);
    let ready = cached(old.release.clone(), ReleaseState::Ready);
    let catalog =
        CatalogCacheIndex { etag: None, assets: Vec::new(), releases: vec![ready] };
    let snapshot = catalog_snapshot(&vec![old, new], &catalog);
    assert_eq!(snapshot.latest.as_deref(), Some("v2"));
    assert_eq!(snapshot.releases[0].metadata.tag, "v2");
    assert_eq!(snapshot.releases[1].state, ReleaseState::Ready);
}

#[test]
fn catalog_refresh_falls_back_offline_only_when_cache_exists() {
    let cached = asset("v1", 1);
    let mut assets = vec![cached.clone()];
    let mut catalog =
        CatalogCacheIndex { etag: None, assets: vec![cached], releases: Vec::new() };
    let offline =
        || Err(GithubError::Io { permission_denied: false, message: "offline".into() });
    let (snapshot, warning) =
        merge_catalog_refresh(&mut assets, &mut catalog, offline()).unwrap();
    assert_eq!(snapshot.latest.as_deref(), Some("v1"));
    assert!(warning.is_some());

    assets.clear();
    assert!(merge_catalog_refresh(&mut assets, &mut catalog, offline()).is_err());
}

#[test]
fn custom_roots_are_canonicalized_and_deduplicated() {
    let child = place("/tmp/roots/game");
    let alias = place("/tmp/roots/game/../game");
    let resolved = place("/tmp/roots/game");
    let roots =
        canonicalize_roots(vec![(child, Some(resolved.clone())), (alias, Some(resolved.clone()))]);
    assert_eq!(roots, vec![resolved]);
}

#[test]
fn a_root_that_cannot_be_resolved_is_kept_as_it_is() {
    let gone = place("/gone");
    assert_eq!(canonicalize_roots(vec![(gone.clone(), None)]), vec![gone]);
}

#[test]
fn a_saved_catalog_that_fails_is_told_as_a_warning() {
    let assets = vec![asset("v1", 1)];
    let catalog = CatalogCacheIndex::new();
    let (_, warning) = conclude_refresh(
        &assets,
        &catalog,
        Some(RefreshError::Core(CoreError::PermissionDenied)),
    )
    .unwrap();
    assert_eq!(
        warning.unwrap(),
        "Catalog refresh failed; using saved metadata: access was denied; elevation is required"
    );
}

#[test]
fn a_modified_list_replaces_the_assets() {
    let mut assets = vec![asset("v1", 1)];
    let mut catalog = CatalogCacheIndex::new();
    adopt_refresh(
        &mut assets,
        &mut catalog,
        ReleaseRefresh::Modified { etag: Some("e".into()), assets: vec![asset("v2", 2)] },
    );
    assert_eq!(assets[0].release.tag, "v2");
    assert_eq!(catalog.assets, assets);
    assert_eq!(catalog.etag.as_deref(), Some("e"));
    adopt_refresh(&mut assets, &mut catalog, ReleaseRefresh::NotModified);
    assert_eq!(catalog.etag.as_deref(), Some("e"));
}

#[test]
fn releases_are_listed_once_and_can_be_removed() {
    let mut catalog = CatalogCacheIndex::new();
    catalog.upsert_release(cached(asset("v1", 1).release, ReleaseState::Downloaded));
    catalog.upsert_release(cached(asset("v2", 2).release, ReleaseState::Ready));
    catalog.upsert_release(cached(asset("v1", 1).release, ReleaseState::Ready));
    assert_eq!(catalog.releases.len(), 2);
    assert_eq!(catalog.releases[0].state, ReleaseState::Ready);
    catalog.remove_release(&ReleaseId::new("v1"));
    assert_eq!(catalog.releases.len(), 1);
    assert_eq!(catalog.releases[0].metadata.tag, "v2");
}

#[test]
fn a_catalog_that_was_never_saved_is_empty() {
    assert_eq!(CatalogCacheIndex::load(None), Ok(CatalogCacheIndex::new()));
    assert_eq!(
        CatalogCacheIndex::load(Some(Err(CoreError::StalePlan))),
        Err(CoreError::StalePlan)
    );
}

#[test]
fn a_saved_catalog_is_loaded_as_it_was() {
    let filled = || {
        let mut catalog = CatalogCacheIndex::new();
        catalog.etag = Some("\"tag\"".into());
        catalog.assets.push(asset("v1", 1));
        catalog.upsert_release(cached(asset("v1", 1).release, ReleaseState::Ready));
        catalog
    };
    let index = filled();
    let written = index.save();
    assert_eq!(written.payload, &index);
    let read = Envelope { schema_version: written.schema_version, payload: filled() };
    assert_eq!(CatalogCacheIndex::load(Some(Ok(read))), Ok(filled()));
    let other = Envelope { schema_version: written.schema_version + 1, payload: filled() };
    assert_eq!(
        CatalogCacheIndex::load(Some(Ok(other))).unwrap_err().to_text(),
        "validation failed: unsupported schema version 2"
    );
}

#[test]
fn an_unmodified_list_changes_nothing() {
    let filled = || {
        let mut catalog = CatalogCacheIndex::new();
        catalog.etag = Some("\"tag\"".into());
        catalog.assets.push(asset("v1", 1));
        catalog
    };
    let mut catalog = filled();
    let mut assets = vec![asset("v1", 1)];
    let (_, warning) =
        merge_catalog_refresh(&mut assets, &mut catalog, Ok(ReleaseRefresh::NotModified)).unwrap();
    assert_eq!(warning, None);
    assert_eq!(catalog, filled());
    assert_eq!(assets, [asset("v1", 1)]);
}

#[test]
fn an_archive_that_cannot_be_deleted_is_an_error_of_the_file_system() {
    let told = prepare_failure(PrepareError::File(CoreError::Io {
        permission_denied: true,
        message: "denied".into(),
    }));
    assert_eq!(told.to_text(), "I/O error: denied");
    assert_eq!(told, WorkerError::Io { permission_denied: true, message: "denied".into() });
    assert_eq!(
        prepare_failure(PrepareError::Github(GithubError::TooLarge)),
        WorkerError::Github(GithubError::TooLarge)
    );
}

#[test]
fn parses_only_sha256_digests() {
    let text = format!("sha256:{}", "ab".repeat(32));
    assert_eq!(parse_digest(&text), Some([0xab; 32]));
    assert_eq!(parse_digest("sha512:abcd"), None);
    assert_eq!(parse_digest("sha256:not-hex"), None);
}

#[test]
fn a_written_digest_is_read_back() {
    let digest = digest_of(b"abc");
    assert_eq!(
        hex_hash(&digest),
        "ba7816bf8f01cfea414140de5dae2223b00361a396177a9cb410ff61f20015ad"
    );
    assert_eq!(parse_sha256(&hex_hash(&digest)), Some(digest));
    assert_eq!(parse_digest(&format!("sha256:{}", hex_hash(&digest))), Some(digest));
    let mut hasher = ContentHasher::new();
    hasher.take(b"a");
    hasher.take(b"bc");
    assert_eq!(hasher.finish(), digest);
}

#[test]
fn follows_only_next_pagination_link() {
    let header =
        r#"<https://api.example/page/1>; rel="prev", <https://api.example/page/3>; rel="next""#;
    assert_eq!(next_link(header).as_deref(), Some("https://api.example/page/3"));
}

#[test]
fn filters_drafts_prereleases_and_unrelated_assets() {
    let release = ApiRelease {
        tag_name: "v2.12.0".into(),
        published_at: "2026-01-02T03:04:05Z".into(),
        draft: false,
        prerelease: false,
        assets: vec![
            ApiAsset {
                name: "source.zip".into(),
                browser_download_url: "bad".into(),
                size: 1,
                digest: None,
            },
            ApiAsset {
                name: "streamline-sdk-v2.12.0.zip".into(),
                browser_download_url: "good".into(),
                size: 2,
                digest: None,
            },
        ],
    };
    assert_eq!(select_asset(release).unwrap().download_url, "good");
}

fn release(tag: &str, published: &str, base: &str) -> ApiRelease {
    ApiRelease {
        tag_name: tag.into(),
        published_at: published.into(),
        draft: false,
        prerelease: false,
        assets: vec![ApiAsset {
            name: format!("streamline-sdk-{tag}.zip"),
            browser_download_url: format!("{base}/{tag}.zip"),
            size: 1,
            digest: None,
        }],
    }
}

#[test]
fn drafts_and_prereleases_are_not_offered() {
    let mut draft = release("v1", "2025-01-01T00:00:00Z", "base");
    draft.draft = true;
    assert_eq!(select_asset(draft), None);
    let mut early = release("v1", "2025-01-01T00:00:00Z", "base");
    early.prerelease = true;
    assert_eq!(select_asset(early), None);
}

#[test]
fn the_date_of_a_release_is_read() {
    let dated = select_asset(release("v1", "2026-01-02T03:04:05Z", "base")).unwrap();
    assert_eq!(dated.release.published_unix, 1_767_323_045);
    let undated = select_asset(release("v1", "someday", "base")).unwrap();
    assert_eq!(undated.release.published_unix, 0);
    let given = select_asset_published(release("v1", "ignored", "base"), Some(7)).unwrap();
    assert_eq!(given.release.published_unix, 7);
}

/// Answers the requests of a refresh from a list of pages, and tells which
/// entity tags were sent.
fn refresh_from(
    first: &str,
    previous: Option<&str>,
    mut pages: Vec<PageReply>,
) -> (Result<ReleaseRefresh, GithubError>, Vec<(String, Option<String>)>) {
    let mut requests = Vec::new();
    let client = GithubCatalogClient { releases_url: first.to_owned() };
    let mut stage = client.begin_refresh();
    loop {
        match &stage {
            RefreshStage::Ended { .. } => break,
            RefreshStage::Reading { page, url, .. } => {
                requests.push((url.clone(), request_etag(*page, previous.map(str::to_owned))));
            }
        }
        stage = client.refresh(stage, pages.remove(0));
    }
    match stage {
        RefreshStage::Ended { outcome } => (outcome, requests),
        RefreshStage::Reading { .. } => unreachable!(),
    }
}

fn answered(
    code: u16,
    etag: Option<&str>,
    link: Option<&str>,
    releases: Vec<ApiRelease>,
) -> PageReply {
    PageReply::Answered {
        code,
        status: format!("{code} status"),
        etag: etag.map(str::to_owned),
        link: link.map(str::to_owned),
        releases: Ok(releases),
        message: "body".into(),
    }
}

#[test]
fn refresh_uses_etag_pagination_and_explicit_latest_ordering() {
    let base = "http://127.0.0.1";
    let (outcome, requests) = refresh_from(
        "http://127.0.0.1/page/1",
        Some("\"previous\""),
        vec![
            answered(
                200,
                Some("\"current\""),
                Some("<http://127.0.0.1/page/2>; rel=\"next\""),
                vec![release("v1", "2025-01-01T00:00:00Z", base)],
            ),
            answered(200, None, None, vec![release("v2", "2026-01-01T00:00:00Z", base)]),
        ],
    );
    let Ok(ReleaseRefresh::Modified { assets, etag }) = outcome else {
        panic!("expected a modified catalog");
    };
    assert_eq!(etag.as_deref(), Some("\"current\""));
    assert_eq!(assets[0].release.tag, "v2");
    assert_eq!(requests[0].1.as_deref(), Some("\"previous\""));
    assert_eq!(requests[1], ("http://127.0.0.1/page/2".to_owned(), None));
}

#[test]
fn refresh_honors_not_modified() {
    let (outcome, _) = refresh_from(
        "http://127.0.0.1",
        Some("\"current\""),
        vec![answered(304, None, None, Vec::new())],
    );
    assert_eq!(outcome.unwrap(), ReleaseRefresh::NotModified);
}

#[test]
fn refresh_reports_what_went_wrong() {
    let (outcome, _) =
        refresh_from("u", None, vec![answered(403, None, None, Vec::new())]);
    let error = outcome.unwrap_err();
    assert_eq!(
        error,
        GithubError::Status { status: "403 status".into(), message: "body".into() }
    );
    assert_eq!(error.to_text(), "GitHub returned 403 status: body");
    let (outcome, _) =
        refresh_from("u", None, vec![PageReply::Failed(GithubError::Http("down".into()))]);
    assert_eq!(outcome, Err(GithubError::Http("down".into())));
    let endless = || answered(200, None, Some("<u>; rel=\"next\""), Vec::new());
    let (outcome, requests) = refresh_from("u", None, (0..30).map(|_| endless()).collect());
    assert_eq!(outcome, Err(GithubError::TooManyPages));
    assert_eq!(requests.len(), MAX_PAGES);
}

/// A download of `body` in chunks of seven bytes: its outcome, what it reported,
/// and what it did to files.
fn download_from(
    asset: &OfficialAsset,
    destination: &str,
    body: &[u8],
    content_length: Option<u64>,
) -> (Result<(), GithubError>, Vec<DownloadProgress>, Vec<FileAction>) {
    let client = GithubCatalogClient::new();
    let plan = download_plan(PathStyle::Windows, &place(destination));
    let mut chunks = body.chunks(7);
    let mut hasher = ContentHasher::new();
    let mut updates = Vec::new();
    let mut actions = Vec::new();
    let mut stage = client.begin_download(&plan, asset);
    loop {
        let reply = match client.download_action(&plan, &stage) {
            DownloadAction::File(action) => {
                actions.push(action);
                DownloadReply::File(FileReply::Done(Ok(())))
            }
            DownloadAction::Request => DownloadReply::Answered {
                code: 200,
                status: "200 OK".into(),
                message: String::new(),
                content_length,
            },
            DownloadAction::Receive => match chunks.next() {
                Some(chunk) => {
                    hasher.take(chunk);
                    DownloadReply::Chunk(chunk.len())
                }
                None => {
                    DownloadReply::Complete(std::mem::replace(&mut hasher, ContentHasher::new()).finish())
                }
            },
            DownloadAction::Rest => break,
        };
        stage = client.download_with_progress(asset, stage, reply);
        if let DownloadStage::Receiving { progress } = &stage {
            updates.push(*progress);
        }
    }
    match stage {
        DownloadStage::Ended { outcome } => (outcome, updates, actions),
        _ => unreachable!(),
    }
}

#[test]
fn download_enforces_digest_size_and_reports_progress() {
    let body = b"validated archive bytes";
    let mut wanted = asset("v1", 1);
    wanted.size = body.len() as u64;
    wanted.digest = Some(digest_of(body));
    let (outcome, updates, actions) = download_from(&wanted, "/cache/archive.zip", body, Some(body.len() as u64));
    assert_eq!(outcome, Ok(()));
    assert_eq!(updates.last().unwrap().received, body.len() as u64);
    assert_eq!(updates[0], DownloadProgress { received: 0, total: Some(body.len() as u64) });
    assert_eq!(
        actions,
        vec![
            FileAction::CreateDirectory { path: place("/cache") },
            FileAction::Rename {
                from: place("/cache/archive.zip.partial"),
                to: place("/cache/archive.zip"),
            },
        ]
    );

    let mut large = asset("v1", 1);
    large.size = MAX_ARCHIVE_BYTES + 1;
    assert!(matches!(download_from(&large, "/cache/too-large.zip", body, None).0, Err(GithubError::TooLarge)));

    let mut other = asset("v1", 1);
    other.size = body.len() as u64;
    other.digest = Some([0; 32]);
    let (outcome, _, actions) = download_from(&other, "/cache/wrong.zip", body, None);
    assert!(matches!(outcome, Err(GithubError::DigestMismatch)));
    assert_eq!(
        actions.last(),
        Some(&FileAction::Remove { path: place("/cache/wrong.zip.partial") })
    );
    assert_eq!(check_download(&Some(digest_of(body)), &digest_of(body)), Ok(()));
}

#[test]
fn downloads_fail_as_their_steps_do() {
    let client = GithubCatalogClient::new();
    let wanted = asset("v1", 1);
    let denied = || Err(CoreError::Io { permission_denied: true, message: "denied".into() });
    assert_eq!(
        client.download_with_progress(
            &wanted,
            DownloadStage::CreatingDirectory,
            DownloadReply::File(FileReply::Done(denied())),
        ),
        DownloadStage::Ended {
            outcome: Err(GithubError::Io { permission_denied: true, message: "denied".into() }),
        }
    );
    assert_eq!(
        client.download_with_progress(
            &wanted,
            DownloadStage::Requesting,
            DownloadReply::Answered {
                code: 404,
                status: "404 Not Found".into(),
                message: "gone".into(),
                content_length: None,
            },
        ),
        DownloadStage::Ended {
            outcome: Err(GithubError::Status {
                status: "404 Not Found".into(),
                message: "gone".into(),
            }),
        }
    );
    assert_eq!(
        client.download_with_progress(
            &wanted,
            DownloadStage::Requesting,
            DownloadReply::Failed(GithubError::Http("down".into())),
        ),
        DownloadStage::Ended { outcome: Err(GithubError::Http("down".into())) }
    );
    assert_eq!(
        download_from(&wanted, "archive.zip", b"", Some(MAX_ARCHIVE_BYTES + 1)).0,
        Err(GithubError::TooLarge)
    );
}

#[test]
fn a_download_creates_the_directory_it_goes_to() {
    let client = GithubCatalogClient::new();
    let plan = download_plan(PathStyle::Windows, &place(r"C:\cache\v1.zip"));
    assert_eq!(plan.directory, Some(place(r"C:\cache")));
    assert_eq!(client.begin_download(&plan, &asset("v1", 1)), DownloadStage::CreatingDirectory);
    let nowhere = DownloadPlan { directory: None, destination: place(r"C:\") };
    assert_eq!(download_plan(PathStyle::Windows, &place(r"C:\")), nowhere);
    assert_eq!(client.begin_download(&nowhere, &asset("v1", 1)), DownloadStage::Requesting);
}

#[test]
fn the_client_reads_the_published_releases() {
    assert_eq!(
        GithubCatalogClient::new().releases_url,
        "https://api.github.com/repos/NVIDIA-RTX/Streamline/releases?per_page=100"
    );
}

#[test]
fn downloads_without_a_size_or_a_digest_pass() {
    assert_eq!(
        begin_download(0, None),
        Ok(DownloadProgress { received: 0, total: None })
    );
    assert_eq!(begin_download(5, Some(MAX_ARCHIVE_BYTES + 1)), Err(GithubError::TooLarge));
    let nearly = DownloadProgress { received: MAX_ARCHIVE_BYTES, total: None };
    assert_eq!(continue_download(nearly, 1), Err(GithubError::TooLarge));
    assert_eq!(continue_download(nearly, 0), Ok(nearly));
    assert_eq!(check_download(&None, &[9; 32]), Ok(()));
}

#[test]
fn archives_in_the_cache_are_checked_before_use() {
    let mut published = asset("v1", 1);
    published.digest = Some([1; 32]);
    assert_eq!(validate_cached_archive(&published, 10, &[1; 32]), Ok(()));
    assert_eq!(
        validate_cached_archive(&published, 10, &[2; 32]),
        Err(GithubError::DigestMismatch)
    );
    assert_eq!(
        validate_cached_archive(&published, MAX_ARCHIVE_BYTES + 1, &[1; 32]),
        Err(GithubError::TooLarge)
    );
}

#[test]
fn the_tag_decides_between_releases_of_one_moment() {
    let assets = vec![asset("v1", 5), asset("v3", 5), asset("v2", 5), asset("v9", 1)];
    assert_eq!(latest_asset(&assets).unwrap().release.tag, "v3");
    let tags: Vec<String> =
        sort_latest_first(&assets).into_iter().map(|asset| asset.release.tag).collect();
    assert_eq!(tags, ["v3", "v2", "v1", "v9"]);
    assert_eq!(latest_asset(&[]), None);
}

#[test]
fn other_schemas_are_refused() {
    assert_eq!(check_schema(1, 1), Ok(()));
    assert_eq!(
        check_schema(2, 1).unwrap_err().to_text(),
        "validation failed: unsupported schema version 2"
    );
}

#[test]
fn the_desk_says_what_it_does_not_have() {
    let desk = Desk::new(Vec::new(), CatalogCacheIndex::new());
    assert_eq!(
        desk.game_for_operation(&GameId::new("g")).unwrap_err(),
        WorkerError::State("game is no longer present in the scan".into())
    );
    assert_eq!(
        desk.asset_of_release(&ReleaseId::new("v1")).unwrap_err(),
        WorkerError::State("release is no longer in the official index".into())
    );
    assert_eq!(
        desk.newest_asset().unwrap_err(),
        WorkerError::State("official release metadata is not available".into())
    );
}

fn ready(tag: &str, dlls: Vec<CatalogDll>) -> CachedRelease {
    CachedRelease {
        metadata: asset(tag, 1).release,
        state: ReleaseState::Ready,
        dlls,
        validation: ReleaseValidation::Full,
    }
}

#[test]
fn the_desk_takes_over_a_release_that_is_ready() {
    let mut desk = Desk::new(Vec::new(), CatalogCacheIndex::new());
    assert_eq!(desk.finish_release(&Ok(ready("v1", Vec::new()))), None);
    assert_eq!(desk.catalog.releases, vec![ready("v1", Vec::new())]);
    assert_eq!(desk.finish_release(&Ok(ready("v1", Vec::new()))), None);
    assert_eq!(desk.catalog.releases.len(), 1);
    assert_eq!(
        desk.finish_release(&Err(WorkerError::Github(GithubError::DigestMismatch))),
        Some(ReleaseProgress { state: ReleaseState::Invalid, received: 0, total: None })
    );
    assert_eq!(desk.catalog.releases.len(), 1);
}

fn built(release: &ReleaseId, hash: u8, source: &str) -> CatalogDll {
    CatalogDll {
        file_name: FileName::new("nvngx_dlss.dll"),
        version: DllVersion::new(3, 7, 10, 0),
        sha256: [hash; 32],
        source: place(source),
        release: release.clone(),
    }
}

#[test]
fn the_desk_plans_from_releases_and_imports() {
    let old = ReleaseId::new("v1");
    let mut desk = Desk::new(Vec::new(), CatalogCacheIndex::new());
    desk.finish_release(&Ok(ready("v1", vec![built(&old, 5, "/cache/v1/nvngx_dlss.dll")])));
    let imports = ImportIndex {
        records: vec![ImportedDllRecord {
            file_name: FileName::new("nvngx_dlss.dll"),
            version: DllVersion::new(3, 1, 0, 0),
            sha256: [7; 32],
            signer: "NVIDIA Corporation".into(),
            imported_unix: 1,
            content_path: place("/imports/object"),
        }],
    };
    let game = GameInstall {
        id: GameId::new("g"),
        name: "Game".into(),
        store: StoreKind::Steam,
        root: place("/game"),
        dlls: vec![DllInstallation {
            id: DllInstallationId("dll".into()),
            game_id: GameId::new("g"),
            path: place("/game/nvngx_dlss.dll"),
            file_name: FileName::new("nvngx_dlss.dll"),
            metadata: DllMetadata {
                version: Some(DllVersion::new(3, 5, 0, 0)),
                sha256: [3; 32],
                signature: SignatureStatus::Trusted,
                x86_64: true,
            },
        }],
        inspection_errors: 0,
    };
    let plan_of = |release: ReleaseId, hash: u8| {
        let mut profile = TargetProfile::new();
        profile.insert(
            DllInstallationId("dll".into()),
            DesiredDll::Cached { release, sha256: [hash; 32] },
        );
        desk.plan_profile("nonce", &game, &[], &imports, &[], &profile)
    };
    let plan = plan_of(old.clone(), 5).unwrap();
    assert_eq!(plan.nonce, "nonce");
    assert_eq!(plan.swaps[0].source_path, place("/cache/v1/nvngx_dlss.dll"));
    let plan = plan_of(imported_release_id([7; 32]), 7).unwrap();
    assert_eq!(plan.swaps[0].source_path, place("/imports/object"));
    assert!(matches!(
        plan_of(old, 9),
        Err(WorkerError::Core(CoreError::Validation(_)))
    ));
}
