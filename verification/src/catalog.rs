//! The release catalog: what is known of every release, and how it is merged
//! with what GitHub says.

use crate::files::{is_unsealed, unseal, Envelope};
use crate::github::{
    github_error_text, is_latest_first, later_releases_come_first, sort_latest_first, GithubError,
    OfficialAsset, ReleaseRefresh,
};
use crate::lists::{picks, picks_grow, picks_nothing};
use crate::model::{
    same_release, CachedRelease, CatalogDll, ReleaseId, ReleaseState, ReleaseValidation,
};
use crate::text::join_two;
use crate::traits::{error_text, CoreError};
use vstd::prelude::*;

verus! {

/// The version of the catalog format.
pub const CATALOG_SCHEMA_VERSION: u32 = 1;

/// The catalog as it is kept on disk.
#[derive(Debug, PartialEq, Eq)]
pub struct CatalogCacheIndex {
    pub etag: Option<String>,
    pub assets: Vec<OfficialAsset>,
    pub releases: Vec<CachedRelease>,
}

/// Whether `index` is the catalog that was read.
pub open spec fn is_loaded(
    read: Option<Result<Envelope<CatalogCacheIndex>, CoreError>>,
    index: Result<CatalogCacheIndex, CoreError>,
) -> bool {
    match read {
        Some(result) => is_unsealed(result, CATALOG_SCHEMA_VERSION, index),
        None => index matches Ok(index) && index.etag is None && index.assets.len() == 0
            && index.releases.len() == 0,
    }
}

/// Whether `written` is what goes to the file of a catalog.
pub open spec fn is_saved(
    index: CatalogCacheIndex,
    written: Envelope<&CatalogCacheIndex>,
) -> bool {
    written.schema_version == CATALOG_SCHEMA_VERSION && *written.payload == index
}

/// A catalog that was saved is loaded as it was, with its entity tag, its assets
/// and its releases, if the file gives back what was written to it.
pub proof fn a_saved_catalog_is_loaded(
    index: CatalogCacheIndex,
    written: Envelope<&CatalogCacheIndex>,
    read: Envelope<CatalogCacheIndex>,
    loaded: Result<CatalogCacheIndex, CoreError>,
)
    requires
        is_saved(index, written),
        read.schema_version == written.schema_version,
        read.payload == *written.payload,
        is_loaded(Some(Ok(read)), loaded),
    ensures
        loaded == Ok::<CatalogCacheIndex, CoreError>(index),
{
}

/// The position of the first release with the identifier `id`, or the number of
/// releases if there is none.
pub open spec fn release_position(releases: Seq<CachedRelease>, id: Seq<char>) -> int
    decreases releases.len(),
{
    if releases.len() == 0 {
        0
    } else {
        let before = release_position(releases.drop_last(), id);
        if before < releases.len() - 1 {
            before
        } else if releases.last().metadata.id@ == id {
            releases.len() - 1
        } else {
            releases.len() as int
        }
    }
}

/// The release with the identifier `id`.
pub open spec fn release_with_id(releases: Seq<CachedRelease>, id: Seq<char>) -> Option<
    CachedRelease,
> {
    let at = release_position(releases, id);
    if at < releases.len() {
        Some(releases[at])
    } else {
        None
    }
}

/// The list with `release` in place of the release with the same identifier, or
/// at the end.
pub open spec fn with_release(releases: Seq<CachedRelease>, release: CachedRelease) -> Seq<
    CachedRelease,
> {
    let at = release_position(releases, release.metadata.id@);
    if at < releases.len() {
        releases.update(at, release)
    } else {
        releases.push(release)
    }
}

/// The list without the releases that have the identifier `id`.
pub open spec fn without_release(releases: Seq<CachedRelease>, id: Seq<char>) -> Seq<CachedRelease>
    decreases releases.len(),
{
    if releases.len() == 0 {
        releases
    } else if releases.last().metadata.id@ == id {
        without_release(releases.drop_last(), id)
    } else {
        without_release(releases.drop_last(), id).push(releases.last())
    }
}

proof fn release_position_facts(releases: Seq<CachedRelease>, id: Seq<char>)
    ensures
        ({
            let at = release_position(releases, id);
            &&& 0 <= at <= releases.len()
            &&& at < releases.len() ==> releases[at].metadata.id@ == id
            &&& forall|i: int| 0 <= i < at ==> (#[trigger] releases[i]).metadata.id@ != id
        }),
    decreases releases.len(),
{
    if releases.len() > 0 {
        let shorter = releases.drop_last();
        release_position_facts(shorter, id);
        let at = release_position(releases, id);
        assert forall|i: int| 0 <= i < at implies (#[trigger] releases[i]).metadata.id@ != id by {
            if i < shorter.len() {
                assert(shorter[i] == releases[i]);
            }
        }
    }
}

/// A release that was listed is found under its identifier, and no other
/// release is lost or changed.
pub proof fn listed_releases_are_found(
    releases: Seq<CachedRelease>,
    release: CachedRelease,
    other: Seq<char>,
)
    ensures
        release_with_id(with_release(releases, release), release.metadata.id@) == Some(release),
        other != release.metadata.id@ ==> release_with_id(with_release(releases, release), other)
            == release_with_id(releases, other),
{
    let id = release.metadata.id@;
    let at = release_position(releases, id);
    release_position_facts(releases, id);
    let after = with_release(releases, release);
    release_position_facts(after, id);
    let found = release_position(after, id);
    assert(after[at] == release);
    if found < at {
        assert(after[found] == releases[found]);
    } else if found > at {
        assert(after[at].metadata.id@ != id);
    }
    if other != id {
        release_position_facts(releases, other);
        release_position_facts(after, other);
        let here = release_position(releases, other);
        let there = release_position(after, other);
        if here < releases.len() {
            assert(here != at);
            assert(after[here] == releases[here]);
            if there < here {
                assert(there != at);
                assert(after[there] == releases[there]);
            }
        } else if there < after.len() {
            assert(there != at);
            assert(after[there] == releases[there]);
        }
    }
}

/// A removed release is listed no more, and every other one still is.
pub proof fn removed_releases_are_gone(releases: Seq<CachedRelease>, id: Seq<char>)
    ensures
        forall|i: int|
            0 <= i < without_release(releases, id).len() ==> (#[trigger] without_release(
                releases,
                id,
            )[i]).metadata.id@ != id,
        forall|i: int|
            0 <= i < releases.len() && (#[trigger] releases[i]).metadata.id@ != id
                ==> without_release(releases, id).contains(releases[i]),
    decreases releases.len(),
{
    if releases.len() > 0 {
        let shorter = releases.drop_last();
        let rest = without_release(shorter, id);
        let all = without_release(releases, id);
        removed_releases_are_gone(shorter, id);
        assert forall|i: int|
            0 <= i < releases.len() && (#[trigger] releases[i]).metadata.id@
                != id implies all.contains(releases[i]) by {
            if i < shorter.len() {
                assert(shorter[i] == releases[i]);
                assert(rest.contains(shorter[i]));
                let j = choose|j: int| 0 <= j < rest.len() && rest[j] == shorter[i];
                assert(all[j] == releases[i]);
            } else {
                assert(all.last() == releases[i]);
            }
        }
    }
}

/// The position of the release with the identifier `id`.
pub fn find_release(releases: &Vec<CachedRelease>, id: &ReleaseId) -> (at: usize)
    ensures
        at == release_position(releases@, id@),
        at <= releases.len(),
{
    let mut found: usize = 0;
    let mut at: usize = 0;
    while at < releases.len()
        invariant
            at <= releases.len(),
            found <= at,
            found == release_position(releases@.take(at as int), id@),
        decreases releases.len() - at,
    {
        proof {
            assert(releases@.take(at + 1).drop_last() =~= releases@.take(at as int));
        }
        if found == at && !releases[at].metadata.id.same(id) {
            found = at + 1;
        }
        at += 1;
    }
    proof {
        assert(releases@.take(at as int) =~= releases@);
    }
    found
}

/// Lists `release` in place of the release with the same identifier, or at the
/// end.
pub fn put_release(releases: &mut Vec<CachedRelease>, release: CachedRelease)
    ensures
        final(releases)@ == with_release(old(releases)@, release),
{
    let at = find_release(releases, &release.metadata.id);
    if at < releases.len() {
        releases.set(at, release);
    } else {
        releases.push(release);
    }
}

impl CatalogCacheIndex {
    /// A catalog of nothing.
    pub fn new() -> (index: CatalogCacheIndex)
        ensures
            index.etag is None,
            index.assets.len() == 0,
            index.releases.len() == 0,
    {
        CatalogCacheIndex { etag: None, assets: Vec::new(), releases: Vec::new() }
    }

    /// The catalog that was read, or an empty one if there was no file. A file of
    /// another version is refused.
    pub fn load(read: Option<Result<Envelope<CatalogCacheIndex>, CoreError>>) -> (index: Result<
        CatalogCacheIndex,
        CoreError,
    >)
        ensures
            is_loaded(read, index),
    {
        match read {
            Some(result) => unseal(result, CATALOG_SCHEMA_VERSION),
            None => Ok(CatalogCacheIndex::new()),
        }
    }

    /// The catalog as it goes to its file.
    pub fn save(&self) -> (written: Envelope<&CatalogCacheIndex>)
        ensures
            is_saved(*self, written),
    {
        Envelope { schema_version: CATALOG_SCHEMA_VERSION, payload: self }
    }

    /// Lists `release` in place of the release with the same identifier, or at
    /// the end.
    pub fn upsert_release(&mut self, release: CachedRelease)
        ensures
            final(self).releases@ == with_release(old(self).releases@, release),
            final(self).etag == old(self).etag,
            final(self).assets == old(self).assets,
    {
        put_release(&mut self.releases, release);
    }

    /// Lists the release with the identifier `id` no more.
    pub fn remove_release(&mut self, id: &ReleaseId)
        ensures
            final(self).releases@.len() == without_release(old(self).releases@, id@).len(),
            forall|i: int|
                0 <= i < final(self).releases@.len() ==> same_release(
                    #[trigger] final(self).releases@[i],
                    without_release(old(self).releases@, id@)[i],
                ),
            final(self).etag == old(self).etag,
            final(self).assets == old(self).assets,
    {
        let ghost before = self.releases@;
        let mut kept: Vec<CachedRelease> = Vec::new();
        let mut at: usize = 0;
        while at < self.releases.len()
            invariant
                at <= self.releases.len(),
                self.releases@ == before,
                self.etag == old(self).etag,
                self.assets == old(self).assets,
                kept@.len() == without_release(before.take(at as int), id@).len(),
                forall|i: int|
                    0 <= i < kept@.len() ==> same_release(
                        #[trigger] kept@[i],
                        without_release(before.take(at as int), id@)[i],
                    ),
            decreases self.releases.len() - at,
        {
            proof {
                assert(before.take(at + 1).drop_last() =~= before.take(at as int));
            }
            if !self.releases[at].metadata.id.same(id) {
                kept.push(self.releases[at].clone());
            }
            at += 1;
        }
        proof {
            assert(before.take(at as int) =~= before);
        }
        self.releases = kept;
    }
}

/// The catalog as the user sees it.
#[derive(Debug, PartialEq, Eq)]
pub struct CatalogSnapshot {
    /// The tag of the latest release.
    pub latest: Option<String>,
    pub releases: Vec<CachedRelease>,
}

/// Whether `shown` is how the release of an asset is shown: as the catalog has
/// it, or as known by its metadata alone.
pub open spec fn is_shown(
    asset: OfficialAsset,
    releases: Seq<CachedRelease>,
    shown: CachedRelease,
) -> bool {
    match release_with_id(releases, asset.release.id@) {
        Some(known) => same_release(shown, known),
        None => shown.metadata == asset.release && shown.state == ReleaseState::MetadataOnly
            && shown.dlls.len() == 0 && shown.validation == ReleaseValidation::Full,
    }
}

/// Whether `snapshot` shows `assets`, the latest first.
pub open spec fn is_snapshot(
    assets: Seq<OfficialAsset>,
    releases: Seq<CachedRelease>,
    snapshot: CatalogSnapshot,
) -> bool {
    exists|ordered: Seq<OfficialAsset>|
        #[trigger] is_latest_first(assets, ordered) && shows(ordered, releases, snapshot)
}

/// Whether `snapshot` shows `ordered`, in that order.
pub open spec fn shows(
    ordered: Seq<OfficialAsset>,
    releases: Seq<CachedRelease>,
    snapshot: CatalogSnapshot,
) -> bool {
    &&& snapshot.releases.len() == ordered.len()
    &&& forall|i: int|
        0 <= i < ordered.len() ==> is_shown(ordered[i], releases, #[trigger] snapshot.releases@[i])
    &&& match snapshot.latest {
        Some(tag) => ordered.len() > 0 && tag@ == ordered[0].release.tag@,
        None => ordered.len() == 0,
    }
}

/// Shows the assets of the catalog, the latest first.
pub fn catalog_snapshot(assets: &Vec<OfficialAsset>, catalog: &CatalogCacheIndex) -> (snapshot:
    CatalogSnapshot)
    ensures
        is_snapshot(assets@, catalog.releases@, snapshot),
{
    let ordered = sort_latest_first(assets);
    let mut releases: Vec<CachedRelease> = Vec::new();
    let mut at: usize = 0;
    while at < ordered.len()
        invariant
            at <= ordered.len(),
            releases.len() == at,
            forall|i: int|
                0 <= i < at ==> is_shown(ordered@[i], catalog.releases@, #[trigger] releases@[i]),
        decreases ordered.len() - at,
    {
        let asset = &ordered[at];
        let known = find_release(&catalog.releases, &asset.release.id);
        if known < catalog.releases.len() {
            releases.push(catalog.releases[known].clone());
        } else {
            let dlls: Vec<CatalogDll> = Vec::new();
            releases.push(CachedRelease {
                metadata: asset.release.clone(),
                state: ReleaseState::MetadataOnly,
                dlls,
                validation: ReleaseValidation::Full,
            });
        }
        at += 1;
    }
    let latest = if ordered.len() > 0 {
        Some(ordered[0].release.tag.clone())
    } else {
        None
    };
    let snapshot = CatalogSnapshot { latest, releases };
    proof {
        assert(shows(ordered@, catalog.releases@, snapshot));
    }
    snapshot
}

/// Why a refresh of the catalog did not go through.
#[derive(Debug, PartialEq, Eq)]
pub enum RefreshError {
    Github(GithubError),
    Core(CoreError),
}

/// How an error is worded.
pub open spec fn refresh_error_text(error: RefreshError) -> Seq<char> {
    match error {
        RefreshError::Github(error) => github_error_text(error),
        RefreshError::Core(error) => error_text(error),
    }
}

impl RefreshError {
    /// The error in words.
    pub fn to_text(&self) -> (text: String)
        ensures
            text@ == refresh_error_text(*self),
    {
        match self {
            RefreshError::Github(error) => error.to_text(),
            RefreshError::Core(error) => error.to_text(),
        }
    }
}

/// Takes over what a refresh brought. What was not modified stays as it is.
pub fn adopt_refresh(
    assets: &mut Vec<OfficialAsset>,
    catalog: &mut CatalogCacheIndex,
    refresh: ReleaseRefresh,
)
    ensures
        final(catalog).releases == old(catalog).releases,
        match refresh {
            ReleaseRefresh::NotModified => {
                &&& final(assets)@ == old(assets)@
                &&& *final(catalog) == *old(catalog)
            },
            ReleaseRefresh::Modified { etag, assets: updated } => {
                &&& final(assets)@ == updated@
                &&& final(catalog).assets@ == updated@
                &&& final(catalog).etag == etag
            },
        },
{
    match refresh {
        ReleaseRefresh::NotModified => {},
        ReleaseRefresh::Modified { etag, assets: updated } => {
            let copy = updated.clone();
            proof {
                assert(copy@ =~= updated@);
            }
            catalog.etag = etag;
            catalog.assets = copy;
            *assets = updated;
        },
    }
}

/// What a refresh comes to, once it was adopted and the catalog was saved. After
/// a failure the assets that were known before are shown with a warning; only
/// if there are none does the refresh fail.
pub fn conclude_refresh(
    assets: &Vec<OfficialAsset>,
    catalog: &CatalogCacheIndex,
    failure: Option<RefreshError>,
) -> (result: Result<(CatalogSnapshot, Option<String>), RefreshError>)
    ensures
        match failure {
            None => result matches Ok((snapshot, warning)) && is_snapshot(
                assets@,
                catalog.releases@,
                snapshot,
            ) && warning is None,
            Some(error) => if assets.len() > 0 {
                result matches Ok((snapshot, warning)) && is_snapshot(
                    assets@,
                    catalog.releases@,
                    snapshot,
                ) && (warning matches Some(text) && text@
                    == "Catalog refresh failed; using saved metadata: "@ + refresh_error_text(
                    error,
                ))
            } else {
                result == Err::<(CatalogSnapshot, Option<String>), RefreshError>(error)
            },
        },
{
    match failure {
        None => Ok((catalog_snapshot(assets, catalog), None)),
        Some(error) => if assets.len() > 0 {
            let reason = error.to_text();
            let warning = join_two("Catalog refresh failed; using saved metadata: ", &reason);
            Ok((catalog_snapshot(assets, catalog), Some(warning)))
        } else {
            Err(error)
        },
    }
}

/// Merges what GitHub said into the catalog, where the catalog is not saved or
/// was saved without failure.
pub fn merge_catalog_refresh(
    assets: &mut Vec<OfficialAsset>,
    catalog: &mut CatalogCacheIndex,
    refresh: Result<ReleaseRefresh, GithubError>,
) -> (result: Result<(CatalogSnapshot, Option<String>), RefreshError>)
    ensures
        match refresh {
            Ok(_) => result matches Ok((snapshot, warning)) && is_snapshot(
                final(assets)@,
                final(catalog).releases@,
                snapshot,
            ) && warning is None,
            Err(error) => {
                &&& final(assets)@ == old(assets)@
                &&& *final(catalog) == *old(catalog)
                &&& result is Ok <==> old(assets).len() > 0
                &&& result matches Ok((snapshot, warning)) ==> is_snapshot(
                    old(assets)@,
                    old(catalog).releases@,
                    snapshot,
                ) && (warning matches Some(text) && text@
                    == "Catalog refresh failed; using saved metadata: "@ + github_error_text(error))
                &&& result matches Err(told) ==> told == RefreshError::Github(error)
            },
        },
        final(catalog).releases == old(catalog).releases,
        refresh matches Ok(ReleaseRefresh::NotModified) ==> final(assets)@ == old(assets)@
            && *final(catalog) == *old(catalog),
        refresh matches Ok(ReleaseRefresh::Modified { etag, assets: updated }) ==> final(assets)@
            == updated@ && final(catalog).assets@ == updated@ && final(catalog).etag == etag,
{
    match refresh {
        Ok(refresh) => {
            adopt_refresh(assets, catalog, refresh);
            conclude_refresh(assets, catalog, None)
        },
        Err(error) => conclude_refresh(assets, catalog, Some(RefreshError::Github(error))),
    }
}

/// A removal takes out exactly the releases with the identifier, and leaves the
/// others in their order.
pub proof fn only_one_release_is_removed(
    releases: Seq<CachedRelease>,
    id: Seq<char>,
) -> (kept: Seq<int>)
    ensures
        picks(kept, releases.len() as int, |i: int| releases[i].metadata.id@ != id),
        without_release(releases, id).len() == kept.len(),
        forall|k: int|
            #![trigger without_release(releases, id)[k]]
            0 <= k < kept.len() ==> without_release(releases, id)[k] == releases[kept[k]],
    decreases releases.len(),
{
    let here = |i: int| releases[i].metadata.id@ != id;
    if releases.len() == 0 {
        picks_nothing(here);
        Seq::empty()
    } else {
        let shorter = releases.drop_last();
        let before = only_one_release_is_removed(shorter, id);
        picks_grow(before, shorter.len() as int, |i: int| shorter[i].metadata.id@ != id, here)
    }
}

/// Listing a release leaves the others where they are, and adds one at the end
/// only where none with its identifier was listed.
pub proof fn listing_leaves_other_releases_alone(
    releases: Seq<CachedRelease>,
    release: CachedRelease,
)
    ensures
        with_release(releases, release).contains(release),
        forall|i: int|
            0 <= i < releases.len() && (#[trigger] releases[i]).metadata.id@
                != release.metadata.id@ ==> with_release(releases, release)[i] == releases[i],
        (exists|i: int|
            0 <= i < releases.len() && (#[trigger] releases[i]).metadata.id@
                == release.metadata.id@) ==> with_release(releases, release).len()
            == releases.len(),
        (forall|i: int|
            0 <= i < releases.len() ==> (#[trigger] releases[i]).metadata.id@
                != release.metadata.id@) ==> with_release(releases, release) == releases.push(
            release,
        ),
{
    the_first_release_counts(releases, release.metadata.id@);
    let at = release_position(releases, release.metadata.id@);
    assert(with_release(releases, release)[at] == release);
}

/// Of the releases with an identifier the first one counts.
pub proof fn the_first_release_counts(releases: Seq<CachedRelease>, id: Seq<char>)
    ensures
        0 <= release_position(releases, id) <= releases.len(),
        release_position(releases, id) < releases.len() ==> releases[release_position(
            releases,
            id,
        )].metadata.id@ == id && release_with_id(releases, id) == Some(
            releases[release_position(releases, id)],
        ),
        release_position(releases, id) == releases.len() ==> release_with_id(releases, id) is None,
        forall|i: int|
            0 <= i < release_position(releases, id) ==> (#[trigger] releases[i]).metadata.id@ != id,
    decreases releases.len(),
{
    if releases.len() > 0 {
        let shorter = releases.drop_last();
        the_first_release_counts(shorter, id);
        assert forall|i: int| 0 <= i < release_position(releases, id) implies (
        #[trigger] releases[i]).metadata.id@ != id by {
            if i < shorter.len() {
                assert(shorter[i] == releases[i]);
            }
        }
    }
}

/// A snapshot shows every asset once, the latest first, with what the catalog
/// knows of its release, or else as known by its metadata alone. Its latest tag
/// is that of the first.
pub proof fn snapshots_show_every_asset(
    assets: Seq<OfficialAsset>,
    releases: Seq<CachedRelease>,
    snapshot: CatalogSnapshot,
) -> (order: Seq<usize>)
    requires
        is_snapshot(assets, releases, snapshot),
    ensures
        snapshot.releases@.len() == assets.len(),
        order.len() == assets.len(),
        forall|i: int| 0 <= i < order.len() ==> #[trigger] order[i] < assets.len(),
        forall|i: int, j: int| 0 <= i < j < order.len() ==> order[i] != order[j],
        forall|i: int, j: int|
            #![trigger order[i], order[j]]
            0 <= i < j < order.len() ==> assets[order[i] as int].release.published_unix
                >= assets[order[j] as int].release.published_unix,
        forall|i: int|
            #![trigger snapshot.releases@[i]]
            0 <= i < order.len() ==> {
                let asset = assets[order[i] as int];
                let shown = snapshot.releases@[i];
                match release_with_id(releases, asset.release.id@) {
                    Some(known) => shown.metadata == known.metadata && shown.state == known.state
                        && shown.dlls@ == known.dlls@ && shown.validation == known.validation,
                    None => shown.metadata == asset.release && shown.state
                        == ReleaseState::MetadataOnly && shown.dlls@.len() == 0,
                }
            },
        assets.len() > 0 ==> (snapshot.latest matches Some(tag) && tag@
            == assets[order[0] as int].release.tag@),
        assets.len() == 0 ==> snapshot.latest is None,
{
    let ordered = choose|ordered: Seq<OfficialAsset>|
        #[trigger] is_latest_first(assets, ordered) && shows(ordered, releases, snapshot);
    let order = later_releases_come_first(assets, ordered);
    assert forall|i: int, j: int|
        #![trigger order[i], order[j]]
        0 <= i < j < order.len() implies assets[order[i] as int].release.published_unix
        >= assets[order[j] as int].release.published_unix by {
        assert(ordered[i] == assets[order[i] as int]);
        assert(ordered[j] == assets[order[j] as int]);
    }
    order
}

} // verus!
