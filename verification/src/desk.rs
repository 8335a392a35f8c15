//! What the background worker keeps between two commands.

use crate::catalog::{with_release, CatalogCacheIndex};
use crate::discovery::{
    deduplicate_roots, find_game, first_occurrences, game_position, path_views,
};
use crate::github::{latest_asset, latest_of, OfficialAsset};
use crate::keyed::Keyed;
use crate::imports::ImportIndex;
use crate::lists::{first_is, first_where, picks, picks_grow, picks_nothing};
use crate::model::{
    same_game, same_release, BackupRecord, CachedRelease, CatalogDll, GameId, GameInstall,
    OperationPlan, ReleaseId, ReleaseState,
};
use crate::paths::FilePath;
use crate::planning::{plan_target_profile, profile_outcome, ProfileOutcome};
use crate::profile::TargetProfile;
use crate::release::ReleaseProgress;
use crate::review::{cached_dlls, lists_cached};
use crate::text::{decimal, decimal_text, join_three, join_two};
use crate::traits::CoreError;
use crate::worker::{UpgradeReport, WorkerError};
use vstd::prelude::*;

verus! {

/// What the worker knows.
#[derive(Debug, PartialEq, Eq)]
pub struct Desk {
    /// The folders that the user added.
    pub roots: Vec<FilePath>,
    /// The games of the last scan.
    pub games: Vec<GameInstall>,
    pub catalog: CatalogCacheIndex,
    /// The releases that are offered.
    pub assets: Vec<OfficialAsset>,
    /// How to undo the last change of a game.
    pub undo_plans: Keyed<OperationPlan>,
}

/// Whether an error is about the state of the worker, in these words.
pub open spec fn complains(error: WorkerError, wording: Seq<char>) -> bool {
    error matches WorkerError::State(message) && message@ == wording
}

/// Whether an asset belongs to the release with the identifier `id`.
pub open spec fn is_asset_of(id: Seq<char>) -> spec_fn(OfficialAsset) -> bool {
    |asset: OfficialAsset| asset.release.id@ == id
}

/// Whether a plan holds the same swaps under the same nonce as another.
pub open spec fn same_plan(left: OperationPlan, right: OperationPlan) -> bool {
    left.nonce == right.nonce && left.swaps@ == right.swaps@
}

/// Whether `after` are the plans once an operation on the game `id` left `plan`
/// to undo it.
pub open spec fn undo_is_left(
    before: Map<Seq<char>, OperationPlan>,
    id: Seq<char>,
    plan: OperationPlan,
    after: Map<Seq<char>, OperationPlan>,
) -> bool {
    &&& after.dom() == before.dom().insert(id)
    &&& same_plan(after[id], plan)
    &&& forall|other: Seq<char>|
        other != id && before.dom().contains(other) ==> #[trigger] after[other] == before[other]
}

/// Whether `taken` is the plan that undoes the last change of the game `id`, and
/// `after` the plans without it.
pub open spec fn undo_is_taken(
    before: Map<Seq<char>, OperationPlan>,
    id: Seq<char>,
    taken: Result<OperationPlan, WorkerError>,
    after: Map<Seq<char>, OperationPlan>,
) -> bool {
    &&& after == before.remove(id)
    &&& match taken {
        Ok(plan) => before.dom().contains(id) && plan == before[id],
        Err(error) => !before.dom().contains(id) && complains(
            error,
            "the immediate undo plan is no longer available"@,
        ),
    }
}

impl Desk {
    /// Whether the desk is in order.
    pub open spec fn well_formed(&self) -> bool {
        self.undo_plans.well_formed()
    }

    /// A desk with these folders and this catalog. What the catalog lists is
    /// offered until it is refreshed.
    pub fn new(roots: Vec<FilePath>, catalog: CatalogCacheIndex) -> (desk: Desk)
        ensures
            desk.well_formed(),
            desk.roots == roots,
            desk.games.len() == 0,
            desk.catalog == catalog,
            desk.assets@ == catalog.assets@,
            desk.undo_plans@ == Map::<Seq<char>, OperationPlan>::empty(),
    {
        let assets = catalog.assets.clone();
        proof {
            assert(assets@ =~= catalog.assets@);
        }
        Desk { roots, games: Vec::new(), catalog, assets, undo_plans: Keyed::new() }
    }

    /// The game to operate on, as the last scan found it.
    pub fn game_for_operation(&self, id: &GameId) -> (game: Result<GameInstall, WorkerError>)
        ensures
            match game {
                Ok(game) => {
                    &&& game_position(self.games@, id@) < self.games.len()
                    &&& same_game(game, self.games@[game_position(self.games@, id@)])
                },
                Err(error) => {
                    &&& game_position(self.games@, id@) >= self.games.len()
                    &&& complains(error, "game is no longer present in the scan"@)
                },
            },
    {
        let at = find_game(&self.games, id);
        if at < self.games.len() {
            Ok(self.games[at].clone())
        } else {
            Err(WorkerError::State("game is no longer present in the scan".to_owned()))
        }
    }

    /// The asset of a release that is offered.
    pub fn asset_of_release(&self, id: &ReleaseId) -> (asset: Result<&OfficialAsset, WorkerError>)
        ensures
            ({
                let at = first_where(self.assets@, is_asset_of(id@));
                match asset {
                    Ok(asset) => at < self.assets.len() && *asset == self.assets@[at],
                    Err(error) => at >= self.assets.len() && complains(
                        error,
                        "release is no longer in the official index"@,
                    ),
                }
            }),
    {
        let ghost wanted = is_asset_of(id@);
        let mut at: usize = 0;
        while at < self.assets.len()
            invariant
                at <= self.assets.len(),
                wanted == is_asset_of(id@),
                forall|i: int| 0 <= i < at ==> !wanted(#[trigger] self.assets@[i]),
            decreases self.assets.len() - at,
        {
            if self.assets[at].release.id.same(id) {
                proof {
                    first_is(self.assets@, wanted, at as int);
                }
                return Ok(&self.assets[at]);
            }
            at += 1;
        }
        proof {
            first_is(self.assets@, wanted, at as int);
        }
        Err(WorkerError::State("release is no longer in the official index".to_owned()))
    }

    /// The asset of the latest release.
    pub fn newest_asset(&self) -> (asset: Result<&OfficialAsset, WorkerError>)
        ensures
            match asset {
                Ok(asset) => latest_of(self.assets@) == Some(*asset),
                Err(error) => self.assets.len() == 0 && complains(
                    error,
                    "official release metadata is not available"@,
                ),
            },
    {
        match latest_asset(self.assets.as_slice()) {
            Some(asset) => Ok(asset),
            None => Err(WorkerError::State("official release metadata is not available".to_owned())),
        }
    }

    /// Takes the plan that undoes the last change of a game. It can be taken
    /// once.
    pub fn take_undo_plan(&mut self, id: &GameId) -> (plan: Result<OperationPlan, WorkerError>)
        requires
            old(self).well_formed(),
        ensures
            final(self).well_formed(),
            *final(self) == (Desk { undo_plans: final(self).undo_plans, ..*old(self) }),
            undo_is_taken(old(self).undo_plans@, id@, plan, final(self).undo_plans@),
    {
        match self.undo_plans.remove(&id.0) {
            Some(plan) => Ok(plan),
            None => Err(
                WorkerError::State("the immediate undo plan is no longer available".to_owned()),
            ),
        }
    }

    /// Takes over a release that was made ready. The result is what is shown of
    /// one that was not.
    pub fn finish_release(&mut self, result: &Result<CachedRelease, WorkerError>) -> (shown: Option<
        ReleaseProgress,
    >)
        ensures
            match *result {
                Ok(release) => {
                    &&& shown is None
                    &&& *final(self) == (Desk { catalog: final(self).catalog, ..*old(self) })
                    &&& final(self).catalog.etag == old(self).catalog.etag
                    &&& final(self).catalog.assets == old(self).catalog.assets
                    &&& exists|copy: CachedRelease| #[trigger]
                        same_release(copy, release) && final(self).catalog.releases@
                            == with_release(old(self).catalog.releases@, copy)
                },
                Err(_) => {
                    &&& *final(self) == *old(self)
                    &&& shown == Some(
                        ReleaseProgress { state: ReleaseState::Invalid, received: 0, total: None },
                    )
                },
            },
    {
        match result {
            Ok(release) => {
                let copy = release.clone();
                proof {
                    assert(same_release(copy, *release));
                }
                self.catalog.upsert_release(copy);
                None
            },
            Err(_) => Some(
                ReleaseProgress { state: ReleaseState::Invalid, received: 0, total: None },
            ),
        }
    }

    /// Plans what the choices for a game ask for. `latest` are the DLLs of the
    /// latest release; a choice can also name any other release, an import or a
    /// backup.
    pub fn plan_profile(
        &self,
        nonce: &str,
        game: &GameInstall,
        latest: &[CatalogDll],
        imports: &ImportIndex,
        backups: &[BackupRecord],
        profile: &TargetProfile,
    ) -> (plan: Result<OperationPlan, WorkerError>)
        ensures
            exists|cached: Seq<CatalogDll>| #[trigger]
                lists_cached(self.catalog.releases@, imports.records@, cached)
                    && match profile_outcome(
                    profile.targets@,
                    game.dlls@,
                    latest@,
                    cached,
                    backups@,
                ) {
                    ProfileOutcome::Swaps(swaps) => plan matches Ok(plan) && plan.nonce@ == nonce@
                        && plan.swaps@ == swaps,
                    ProfileOutcome::Refused(reason) => plan matches Err(
                        WorkerError::Core(CoreError::Validation(message)),
                    ) && message@ == reason,
                },
    {
        let cached = cached_dlls(self.catalog.releases.as_slice(), imports);
        let planned = plan_target_profile(
            nonce,
            game.dlls.as_slice(),
            latest,
            cached.as_slice(),
            backups,
            profile,
        );
        proof {
            assert(lists_cached(self.catalog.releases@, imports.records@, cached@));
        }
        match planned {
            Ok(plan) => Ok(plan),
            Err(error) => Err(WorkerError::Core(error)),
        }
    }

    /// Takes note of a finished operation: how to undo it, and how the game
    /// looks now. The result is a warning if files could not be inspected.
    pub fn finish_operation(
        &mut self,
        id: &GameId,
        fresh: &GameInstall,
        result: &Result<UpgradeReport, WorkerError>,
    ) -> (warning: Option<String>)
        requires
            old(self).well_formed(),
        ensures
            final(self).well_formed(),
            *final(self) == (Desk {
                undo_plans: final(self).undo_plans,
                games: final(self).games,
                ..*old(self)
            }),
            match *result {
                Ok(report) => match report.undo_plan {
                    Some(plan) => undo_is_left(
                        old(self).undo_plans@,
                        id@,
                        plan,
                        final(self).undo_plans@,
                    ),
                    None => final(self).undo_plans == old(self).undo_plans,
                },
                Err(_) => final(self).undo_plans == old(self).undo_plans,
            },
            final(self).games.len() == old(self).games.len(),
            forall|i: int|
                0 <= i < final(self).games.len() ==> if i == game_position(
                    old(self).games@,
                    fresh.id@,
                ) {
                    same_game(#[trigger] final(self).games@[i], *fresh)
                } else {
                    final(self).games@[i] == old(self).games@[i]
                },
            match warning {
                Some(warning) => fresh.inspection_errors > 0 && warning@
                    == "The operation finished, but "@ + decimal(fresh.inspection_errors as nat)
                    + " DLL or traversal entries could not be inspected"@,
                None => fresh.inspection_errors == 0,
            },
    {
        if let Ok(report) = result {
            if let Some(plan) = &report.undo_plan {
                self.undo_plans.insert(id.0.clone(), plan.clone());
            }
        }
        let at = find_game(&self.games, &fresh.id);
        if at < self.games.len() {
            self.games.set(at, fresh.clone());
        }
        if fresh.inspection_errors > 0 {
            Some(
                join_three(
                    "The operation finished, but ",
                    &decimal_text(fresh.inspection_errors as u64),
                    " DLL or traversal entries could not be inspected",
                ),
            )
        } else {
            None
        }
    }

    /// Adds a folder to those that are scanned, once it is known where it
    /// really is. The result is a warning if it could not be found; it calls the
    /// folder by `shown`, its path in the platform's spelling.
    pub fn add_root(&mut self, shown: &str, resolved: Result<FilePath, String>) -> (warning:
        Option<String>)
        ensures
            *final(self) == (Desk { roots: final(self).roots, ..*old(self) }),
            match resolved {
                Ok(found) => {
                    &&& warning is None
                    &&& final(self).roots@ == if path_views(old(self).roots@).contains(found@) {
                        old(self).roots@
                    } else {
                        old(self).roots@.push(found)
                    }
                },
                Err(message) => {
                    &&& final(self).roots == old(self).roots
                    &&& warning matches Some(warning) && warning@ == "Could not add game folder "@
                        + shown@ + ": "@ + message@
                },
            },
    {
        match resolved {
            Ok(found) => {
                if !lists_path(self.roots.as_slice(), &found) {
                    self.roots.push(found);
                }
                None
            },
            Err(message) => {
                Some(join_two(&join_three("Could not add game folder ", shown, ": "), &message))
            },
        }
    }

    /// Scans a folder no more.
    pub fn remove_root(&mut self, root: &FilePath)
        ensures
            *final(self) == (Desk { roots: final(self).roots, ..*old(self) }),
            final(self).roots@ == without_path(old(self).roots@, root@),
    {
        self.roots = remove_path(&self.roots, root);
    }
}

/// Whether a list holds a path.
pub fn lists_path(paths: &[FilePath], path: &FilePath) -> (found: bool)
    ensures
        found == path_views(paths@).contains(path@),
{
    let mut at: usize = 0;
    while at < paths.len()
        invariant
            at <= paths@.len(),
            forall|i: int| 0 <= i < at ==> (#[trigger] paths@[i])@ != path@,
        decreases paths@.len() - at,
    {
        if paths[at].same(path) {
            proof {
                assert(path_views(paths@)[at as int] == path@);
            }
            return true;
        }
        at += 1;
    }
    proof {
        assert forall|i: int| 0 <= i < path_views(paths@).len() implies path_views(paths@)[i]
            != path@ by {
            assert(path_views(paths@)[i] == paths@[i]@);
        }
    }
    false
}

/// The paths other than `path`, in their order.
pub open spec fn without_path(paths: Seq<FilePath>, path: Seq<char>) -> Seq<FilePath>
    decreases paths.len(),
{
    if paths.len() == 0 {
        paths
    } else if paths.last()@ == path {
        without_path(paths.drop_last(), path)
    } else {
        without_path(paths.drop_last(), path).push(paths.last())
    }
}

/// The paths other than `path`, in their order. The text decides: a folder that
/// is gone from the disk can still be removed.
pub fn remove_path(paths: &Vec<FilePath>, path: &FilePath) -> (kept: Vec<FilePath>)
    ensures
        kept@ == without_path(paths@, path@),
{
    let mut kept: Vec<FilePath> = Vec::new();
    let mut at: usize = 0;
    while at < paths.len()
        invariant
            at <= paths.len(),
            kept@ == without_path(paths@.take(at as int), path@),
        decreases paths.len() - at,
    {
        proof {
            assert(paths@.take(at + 1).drop_last() =~= paths@.take(at as int));
        }
        if !paths[at].same(path) {
            kept.push(paths[at].clone());
        }
        at += 1;
    }
    proof {
        assert(paths@.take(at as int) =~= paths@);
    }
    kept
}

/// Where a folder really is, if that is known, and else as it was written.
pub open spec fn settled(root: FilePath, resolved: Option<FilePath>) -> Seq<char> {
    match resolved {
        Some(found) => found@,
        None => root@,
    }
}

/// Where folders really are, if that is known.
pub open spec fn settled_roots(roots: Seq<(FilePath, Option<FilePath>)>) -> Seq<Seq<char>> {
    roots.map_values(|root: (FilePath, Option<FilePath>)| settled(root.0, root.1))
}

/// The folders by where they really are, each once.
pub fn canonicalize_roots(roots: Vec<(FilePath, Option<FilePath>)>) -> (settled: Vec<FilePath>)
    ensures
        path_views(settled@) == first_occurrences(settled_roots(roots@)),
{
    let mut found: Vec<FilePath> = Vec::new();
    let mut at: usize = 0;
    while at < roots.len()
        invariant
            at <= roots.len(),
            found.len() == at,
            forall|i: int| 0 <= i < at ==> (#[trigger] found@[i])@ == settled_roots(roots@)[i],
        decreases roots.len() - at,
    {
        let (root, resolved) = &roots[at];
        found.push(
            match resolved {
                Some(path) => path.clone(),
                None => root.clone(),
            },
        );
        at += 1;
    }
    proof {
        assert(path_views(found@) =~= settled_roots(roots@));
    }
    deduplicate_roots(found)
}

/// A change can be undone once. After an operation that left a plan to undo it,
/// the next undo of the game gets that plan, and the undo after that is told
/// that there is none. The plans of other games are not touched.
pub proof fn an_undo_plan_is_used_once(
    before: Map<Seq<char>, OperationPlan>,
    id: Seq<char>,
    plan: OperationPlan,
    left: Map<Seq<char>, OperationPlan>,
    first: Result<OperationPlan, WorkerError>,
    once: Map<Seq<char>, OperationPlan>,
    second: Result<OperationPlan, WorkerError>,
    twice: Map<Seq<char>, OperationPlan>,
    other: Seq<char>,
)
    requires
        undo_is_left(before, id, plan, left),
        undo_is_taken(left, id, first, once),
        undo_is_taken(once, id, second, twice),
    ensures
        first matches Ok(given) && same_plan(given, plan),
        second matches Err(error) && complains(
            error,
            "the immediate undo plan is no longer available"@,
        ),
        other != id ==> (twice.dom().contains(other) <==> before.dom().contains(other)),
        other != id && before.dom().contains(other) ==> twice[other] == before[other],
{
}

/// Removing a folder takes every path of that text out, and leaves all others
/// in their order.
pub proof fn only_one_folder_is_removed(paths: Seq<FilePath>, path: Seq<char>) -> (picked: Seq<int>)
    ensures
        picks(picked, paths.len() as int, |i: int| paths[i]@ != path),
        without_path(paths, path).len() == picked.len(),
        forall|k: int|
            #![trigger without_path(paths, path)[k]]
            0 <= k < picked.len() ==> without_path(paths, path)[k] == paths[picked[k]],
    decreases paths.len(),
{
    let here = |i: int| paths[i]@ != path;
    if paths.len() == 0 {
        picks_nothing(here);
        Seq::empty()
    } else {
        let shorter = paths.drop_last();
        let before = only_one_folder_is_removed(shorter, path);
        picks_grow(before, shorter.len() as int, |i: int| shorter[i]@ != path, here)
    }
}

/// A folder goes by where it really is where that is known, and by how it was
/// written where it is not.
pub proof fn folders_go_by_where_they_are(roots: Seq<(FilePath, Option<FilePath>)>, i: int)
    requires
        0 <= i < roots.len(),
    ensures
        settled_roots(roots).len() == roots.len(),
        roots[i].1 matches Some(found) ==> settled_roots(roots)[i] == found@,
        roots[i].1 is None ==> settled_roots(roots)[i] == roots[i].0@,
{
}

} // verus!
