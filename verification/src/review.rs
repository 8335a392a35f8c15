//! The review: every planned swap as a row that can be checked, and what the
//! checked rows ask for.

use crate::digest::same_hash;
use crate::imports::{
    imported_catalog_dlls, is_entry_of, ImportIndex, ImportedDllRecord,
};
use crate::kinds::{name_kind, DllKind};
use crate::labels::{counted, dll_kind_rank, kind_rank, plural};
use crate::library::GameRow;
use crate::lists::{first_is, first_where};
use crate::model::{
    BackupRecord, CachedRelease, CatalogDll, Comparison, DesiredDll, DllInstallation,
    DllInstallationId, DllVersion, FileName, GameId, OperationPlan, PlannedSwap,
};
use crate::order::{is_stable_order, stable_order, KeyModel, OrderKey};
use crate::planning::{
    plan_dlss_only_upgrades, plan_strict_upgrades, plan_target_profile, profile_outcome,
    upgrades_of, ProfileOutcome,
};
use crate::profile::{id_set, ids_of, installation_ids, only_listed, TargetProfile};
use crate::text::{chars_of, holds_part, join_three, join_two, occurs, text_views};
use vstd::prelude::*;

verus! {

/// What a review is for, and for which games.
#[derive(Debug, PartialEq, Eq)]
pub enum ReviewIntent {
    /// DLLs of the DLSS family only; Streamline and Reflex are never touched.
    QuickDlss(Vec<GameId>),
    /// Strictly newer official DLLs of the same name, of every family.
    AllDlls(Vec<GameId>),
    /// The staged choices for these games.
    Profiles(Vec<GameId>),
}

/// One planned swap in the review.
#[derive(Debug, PartialEq, Eq)]
pub struct ReviewRow {
    pub game_id: GameId,
    pub game_name: String,
    pub dll_id: DllInstallationId,
    pub file_name: FileName,
    pub installed: Option<DllVersion>,
    pub target: Option<DllVersion>,
    /// The choice that is applied if the row stays checked. For one-click
    /// updates it pins the content that was shown.
    pub desired: DesiredDll,
    pub comparison: Comparison,
    pub checked: bool,
    pub known_risk: Option<&'static str>,
}

impl Clone for ReviewRow {
    fn clone(&self) -> (copy: ReviewRow)
        ensures
            copy == *self,
    {
        ReviewRow {
            game_id: self.game_id.clone(),
            game_name: self.game_name.clone(),
            dll_id: self.dll_id.clone(),
            file_name: self.file_name.clone(),
            installed: self.installed,
            target: self.target,
            desired: self.desired.clone(),
            comparison: self.comparison,
            checked: self.checked,
            known_risk: self.known_risk,
        }
    }
}

/// Whether a row replaces a Streamline DLL.
pub open spec fn row_is_streamline(row: ReviewRow) -> bool {
    name_kind(row.file_name) == Some(DllKind::Streamline)
}

impl ReviewRow {
    /// Whether the row replaces a Streamline DLL.
    pub fn is_streamline(&self) -> (streamline: bool)
        ensures
            streamline == row_is_streamline(*self),
    {
        match DllKind::classify(&self.file_name) {
            Some(DllKind::Streamline) => true,
            _ => false,
        }
    }
}

/// The dialog: its rows, what went wrong, and whether the rows are complete.
#[derive(Debug, PartialEq, Eq)]
pub struct ReviewState {
    pub intent: ReviewIntent,
    pub rows: Vec<ReviewRow>,
    pub errors: Vec<String>,
    /// False while the latest release still has to be downloaded.
    pub ready: bool,
}

/// What DLLs can be taken from.
pub struct ReviewSources<'a> {
    /// The latest release, if it is downloaded and checked.
    pub latest: Option<&'a CachedRelease>,
    pub releases: &'a [CachedRelease],
    pub imports: &'a [ImportedDllRecord],
    pub backups: &'a [BackupRecord],
    /// Every DLL of a release and every import; see [`cached_dlls`].
    pub cached: &'a [CatalogDll],
}

/// The DLLs of all releases, one release after the other.
pub open spec fn released_dlls(releases: Seq<CachedRelease>) -> Seq<CatalogDll>
    decreases releases.len(),
{
    if releases.len() == 0 {
        Seq::empty()
    } else {
        released_dlls(releases.drop_last()) + releases.last().dlls@
    }
}

/// Whether `cached` lists the DLLs of all releases, then every import.
pub open spec fn lists_cached(
    releases: Seq<CachedRelease>,
    imports: Seq<ImportedDllRecord>,
    cached: Seq<CatalogDll>,
) -> bool {
    let released = released_dlls(releases);
    &&& cached.len() == released.len() + imports.len()
    &&& cached.take(released.len() as int) == released
    &&& forall|i: int|
        0 <= i < imports.len() ==> is_entry_of(
            #[trigger] imports[i],
            cached[released.len() + i],
        )
}

/// Lists every DLL that a choice can name.
pub fn cached_dlls(releases: &[CachedRelease], imports: &ImportIndex) -> (cached: Vec<CatalogDll>)
    ensures
        lists_cached(releases@, imports.records@, cached@),
{
    let mut cached: Vec<CatalogDll> = Vec::new();
    let mut at: usize = 0;
    proof {
        assert(cached@ =~= released_dlls(releases@.take(0)));
    }
    while at < releases.len()
        invariant
            at <= releases@.len(),
            cached@ == released_dlls(releases@.take(at as int)),
        decreases releases@.len() - at,
    {
        proof {
            assert(releases@.take(at + 1).drop_last() =~= releases@.take(at as int));
        }
        let dlls = &releases[at].dlls;
        let ghost before = cached@;
        let mut inner: usize = 0;
        while inner < dlls.len()
            invariant
                inner <= dlls.len(),
                cached@ == before + dlls@.take(inner as int),
            decreases dlls.len() - inner,
        {
            cached.push(dlls[inner].clone());
            inner += 1;
            proof {
                assert(cached@ =~= before + dlls@.take(inner as int));
            }
        }
        proof {
            assert(dlls@.take(inner as int) =~= dlls@);
        }
        at += 1;
    }
    proof {
        assert(releases@.take(at as int) =~= releases@);
    }
    let ghost released = cached@;
    let mut imported = imported_catalog_dlls(imports);
    let ghost added = imported@;
    cached.append(&mut imported);
    proof {
        assert(cached@ =~= released + added);
        assert(cached@.take(released.len() as int) =~= released);
        assert forall|i: int| 0 <= i < imports.records@.len() implies is_entry_of(
            #[trigger] imports.records@[i],
            cached@[released.len() + i],
        ) by {
            assert(cached@[released.len() + i] == added[i]);
        }
    }
    cached
}

/// Whether a game has the identifier `id`.
pub open spec fn is_game(id: Seq<char>) -> spec_fn(GameRow) -> bool {
    |game: GameRow| game.id@ == id
}

/// The game with the identifier `id`.
pub open spec fn game_with_id(games: Seq<GameRow>, id: Seq<char>) -> Option<GameRow> {
    let at = first_where(games, is_game(id));
    if at < games.len() {
        Some(games[at])
    } else {
        None
    }
}

/// Finds the game with the identifier `id`.
pub fn find_row(games: &[GameRow], id: &GameId) -> (found: Option<usize>)
    ensures
        match found {
            Some(at) => at < games@.len() && at == first_where(games@, is_game(id@)),
            None => first_where(games@, is_game(id@)) == games@.len(),
        },
        match found {
            Some(at) => game_with_id(games@, id@) == Some(games@[at as int]),
            None => game_with_id(games@, id@) is None,
        },
        found matches Some(at) ==> games@[at as int].id@ == id@,
{
    let ghost wanted = is_game(id@);
    let mut at: usize = 0;
    while at < games.len()
        invariant
            at <= games@.len(),
            wanted == is_game(id@),
            forall|i: int| 0 <= i < at ==> !wanted(#[trigger] games@[i]),
        decreases games@.len() - at,
    {
        if games[at].id.same(id) {
            proof {
                first_is(games@, wanted, at as int);
            }
            return Some(at);
        }
        at += 1;
    }
    proof {
        first_is(games@, wanted, at as int);
    }
    None
}

/// Whether an installed DLL has the identifier `id`.
pub open spec fn is_dll(id: Seq<char>) -> spec_fn(DllInstallation) -> bool {
    |dll: DllInstallation| dll.id@ == id
}

/// The first installed DLL with the identifier `id`.
pub open spec fn dll_with_id(dlls: Seq<DllInstallation>, id: Seq<char>) -> Option<
    DllInstallation,
> {
    let at = first_where(dlls, is_dll(id));
    if at < dlls.len() {
        Some(dlls[at])
    } else {
        None
    }
}

fn find_dll<'a>(dlls: &'a [DllInstallation], id: &DllInstallationId) -> (found: Option<
    &'a DllInstallation,
>)
    ensures
        match found {
            Some(dll) => dll_with_id(dlls@, id@) == Some(*dll),
            None => dll_with_id(dlls@, id@) is None,
        },
{
    let ghost wanted = is_dll(id@);
    let mut at: usize = 0;
    while at < dlls.len()
        invariant
            at <= dlls@.len(),
            wanted == is_dll(id@),
            forall|i: int| 0 <= i < at ==> !wanted(#[trigger] dlls@[i]),
        decreases dlls@.len() - at,
    {
        if dlls[at].id.same(id) {
            proof {
                first_is(dlls@, wanted, at as int);
            }
            return Some(&dlls[at]);
        }
        at += 1;
    }
    proof {
        first_is(dlls@, wanted, at as int);
    }
    None
}

/// The version of the first DLL with the digest `sha256`.
pub open spec fn version_in(dlls: Seq<CatalogDll>, sha256: [u8; 32]) -> Option<DllVersion>
    decreases dlls.len(),
{
    if dlls.len() == 0 {
        None
    } else {
        match version_in(dlls.drop_last(), sha256) {
            Some(version) => Some(version),
            None => if dlls.last().sha256 == sha256 {
                Some(dlls.last().version)
            } else {
                None
            },
        }
    }
}

fn find_version(dlls: &[CatalogDll], sha256: &[u8; 32]) -> (version: Option<DllVersion>)
    ensures
        version == version_in(dlls@, *sha256),
{
    let mut found: Option<DllVersion> = None;
    let mut at: usize = 0;
    while at < dlls.len()
        invariant
            at <= dlls@.len(),
            found == version_in(dlls@.take(at as int), *sha256),
        decreases dlls@.len() - at,
    {
        proof {
            assert(dlls@.take(at + 1).drop_last() =~= dlls@.take(at as int));
        }
        if found.is_none() && same_hash(&dlls[at].sha256, sha256) {
            found = Some(dlls[at].version);
        }
        at += 1;
    }
    proof {
        assert(dlls@.take(at as int) =~= dlls@);
    }
    found
}

/// The version of the first import with the digest `sha256`.
pub open spec fn imported_version(imports: Seq<ImportedDllRecord>, sha256: [u8; 32]) -> Option<
    DllVersion,
>
    decreases imports.len(),
{
    if imports.len() == 0 {
        None
    } else {
        match imported_version(imports.drop_last(), sha256) {
            Some(version) => Some(version),
            None => if imports.last().sha256 == sha256 {
                Some(imports.last().version)
            } else {
                None
            },
        }
    }
}

/// Whether a backup has the digest `sha256`.
pub open spec fn is_backup_of(sha256: [u8; 32]) -> spec_fn(BackupRecord) -> bool {
    |backup: BackupRecord| backup.sha256 == sha256
}

/// The version of the first backup with the digest `sha256`, if it is known.
pub open spec fn saved_version(backups: Seq<BackupRecord>, sha256: [u8; 32]) -> Option<
    DllVersion,
> {
    let at = first_where(backups, is_backup_of(sha256));
    if at < backups.len() {
        backups[at].version
    } else {
        None
    }
}

/// The version of a known content: of a release, else of an import, else of a
/// backup.
pub open spec fn known_version(
    releases: Seq<CachedRelease>,
    imports: Seq<ImportedDllRecord>,
    backups: Seq<BackupRecord>,
    sha256: [u8; 32],
) -> Option<DllVersion> {
    match version_in(released_dlls(releases), sha256) {
        Some(version) => Some(version),
        None => match imported_version(imports, sha256) {
            Some(version) => Some(version),
            None => saved_version(backups, sha256),
        },
    }
}

proof fn version_in_joined(left: Seq<CatalogDll>, right: Seq<CatalogDll>, sha256: [u8; 32])
    ensures
        version_in(left + right, sha256) == match version_in(left, sha256) {
            Some(version) => Some(version),
            None => version_in(right, sha256),
        },
    decreases right.len(),
{
    if right.len() == 0 {
        assert(left + right =~= left);
    } else {
        version_in_joined(left, right.drop_last(), sha256);
        assert((left + right).drop_last() =~= left + right.drop_last());
    }
}

/// The version of a known content: of a release, else of an import, else of a
/// backup.
pub fn version_for_sha(
    releases: &[CachedRelease],
    imports: &[ImportedDllRecord],
    backups: &[BackupRecord],
    sha256: &[u8; 32],
) -> (version: Option<DllVersion>)
    ensures
        version == known_version(releases@, imports@, backups@, *sha256),
{
    let mut at: usize = 0;
    while at < releases.len()
        invariant
            at <= releases@.len(),
            version_in(released_dlls(releases@.take(at as int)), *sha256) is None,
        decreases releases@.len() - at,
    {
        proof {
            assert(releases@.take(at + 1).drop_last() =~= releases@.take(at as int));
            version_in_joined(
                released_dlls(releases@.take(at as int)),
                releases@[at as int].dlls@,
                *sha256,
            );
        }
        let found = find_version(releases[at].dlls.as_slice(), sha256);
        if found.is_some() {
            proof {
                earlier_versions_stay(releases@, at + 1, *sha256);
            }
            return found;
        }
        at += 1;
    }
    proof {
        assert(releases@.take(at as int) =~= releases@);
    }
    let mut next: usize = 0;
    let mut imported: Option<DllVersion> = None;
    while next < imports.len()
        invariant
            next <= imports@.len(),
            imported == imported_version(imports@.take(next as int), *sha256),
        decreases imports@.len() - next,
    {
        proof {
            assert(imports@.take(next + 1).drop_last() =~= imports@.take(next as int));
        }
        if imported.is_none() && same_hash(&imports[next].sha256, sha256) {
            imported = Some(imports[next].version);
        }
        next += 1;
    }
    proof {
        assert(imports@.take(next as int) =~= imports@);
    }
    if imported.is_some() {
        return imported;
    }
    let ghost wanted = is_backup_of(*sha256);
    let mut last: usize = 0;
    while last < backups.len()
        invariant
            last <= backups@.len(),
            wanted == is_backup_of(*sha256),
            version_in(released_dlls(releases@), *sha256) is None,
            imported_version(imports@, *sha256) is None,
            forall|i: int| 0 <= i < last ==> !wanted(#[trigger] backups@[i]),
        decreases backups@.len() - last,
    {
        if same_hash(&backups[last].sha256, sha256) {
            proof {
                first_is(backups@, wanted, last as int);
            }
            return backups[last].version;
        }
        last += 1;
    }
    proof {
        first_is(backups@, wanted, last as int);
    }
    None
}

/// What the first releases tell of a content does not change with the others.
proof fn earlier_versions_stay(releases: Seq<CachedRelease>, count: int, sha256: [u8; 32])
    requires
        0 <= count <= releases.len(),
        version_in(released_dlls(releases.take(count)), sha256) is Some,
    ensures
        version_in(released_dlls(releases), sha256) == version_in(
            released_dlls(releases.take(count)),
            sha256,
        ),
    decreases releases.len(),
{
    if count == releases.len() {
        assert(releases.take(count) =~= releases);
    } else {
        assert(releases.drop_last().take(count) =~= releases.take(count));
        earlier_versions_stay(releases.drop_last(), count, sha256);
        version_in_joined(
            released_dlls(releases.drop_last()),
            releases.last().dlls@,
            sha256,
        );
    }
}

/// The row of a planned swap.
pub open spec fn review_row(
    game: GameRow,
    installed: DllInstallation,
    swap: PlannedSwap,
    target: Option<DllVersion>,
    desired: DesiredDll,
) -> ReviewRow {
    ReviewRow {
        game_id: game.id,
        game_name: game.name,
        dll_id: swap.installation,
        file_name: installed.file_name,
        installed: installed.metadata.version,
        target,
        desired,
        comparison: swap.comparison,
        checked: true,
        known_risk: game.known_risk,
    }
}

fn make_row(
    game: &GameRow,
    installed: &DllInstallation,
    swap: &PlannedSwap,
    target: Option<DllVersion>,
    desired: DesiredDll,
) -> (row: ReviewRow)
    ensures
        row == review_row(*game, *installed, *swap, target, desired),
{
    ReviewRow {
        game_id: game.id.clone(),
        game_name: game.name.clone(),
        dll_id: swap.installation.clone(),
        file_name: installed.file_name.clone(),
        installed: installed.metadata.version,
        target,
        desired,
        comparison: swap.comparison,
        checked: true,
        known_risk: game.known_risk,
    }
}

/// The rows of the one-click updates of a game. Each pins the content that is
/// shown.
pub open spec fn update_rows(
    game: GameRow,
    swaps: Seq<PlannedSwap>,
    release: CachedRelease,
) -> Seq<ReviewRow>
    decreases swaps.len(),
{
    if swaps.len() == 0 {
        Seq::empty()
    } else {
        let before = update_rows(game, swaps.drop_last(), release);
        let swap = swaps.last();
        match dll_with_id(game.details@, swap.installation@) {
            Some(installed) => before.push(
                review_row(
                    game,
                    installed,
                    swap,
                    version_in(release.dlls@, swap.source_sha256),
                    DesiredDll::Cached { release: release.metadata.id, sha256: swap.source_sha256 },
                ),
            ),
            None => before,
        }
    }
}

/// The rows of the one-click updates of several games, in their order. A game
/// that is gone is left out.
pub open spec fn all_update_rows(
    ids: Seq<GameId>,
    games: Seq<GameRow>,
    release: CachedRelease,
    dlss_only: bool,
) -> Seq<ReviewRow>
    decreases ids.len(),
{
    if ids.len() == 0 {
        Seq::empty()
    } else {
        let before = all_update_rows(ids.drop_last(), games, release, dlss_only);
        match game_with_id(games, ids.last()@) {
            Some(game) => before + update_rows(
                game,
                upgrades_of(game.details@, release.dlls@, dlss_only),
                release,
            ),
            None => before,
        }
    }
}

fn push_update_rows(
    rows: &mut Vec<ReviewRow>,
    game: &GameRow,
    release: &CachedRelease,
    dlss_only: bool,
)
    ensures
        final(rows)@ == old(rows)@ + update_rows(
            *game,
            upgrades_of(game.details@, release.dlls@, dlss_only),
            *release,
        ),
{
    let plan = if dlss_only {
        plan_dlss_only_upgrades("preview", game.details.as_slice(), release.dlls.as_slice())
    } else {
        plan_strict_upgrades("preview", game.details.as_slice(), release.dlls.as_slice())
    };
    let ghost before = rows@;
    let mut at: usize = 0;
    proof {
        assert(rows@ =~= before + update_rows(*game, plan.swaps@.take(0), *release));
    }
    while at < plan.swaps.len()
        invariant
            at <= plan.swaps.len(),
            rows@ == before + update_rows(*game, plan.swaps@.take(at as int), *release),
        decreases plan.swaps.len() - at,
    {
        let swap = &plan.swaps[at];
        let ghost done = rows@;
        proof {
            assert(plan.swaps@.take(at + 1).drop_last() =~= plan.swaps@.take(at as int));
        }
        if let Some(installed) = find_dll(game.details.as_slice(), &swap.installation) {
            let target = find_version(release.dlls.as_slice(), &swap.source_sha256);
            let desired = DesiredDll::Cached {
                release: release.metadata.id.clone(),
                sha256: swap.source_sha256,
            };
            rows.push(make_row(game, installed, swap, target, desired));
            proof {
                assert(rows@ =~= before + update_rows(
                    *game,
                    plan.swaps@.take(at + 1),
                    *release,
                ));
            }
        }
        at += 1;
    }
    proof {
        assert(plan.swaps@.take(at as int) =~= plan.swaps@);
    }
}

/// What is staged for a DLL, or to keep it.
pub open spec fn staged_or_keep(profile: TargetProfile, id: Seq<char>) -> DesiredDll {
    match profile.staged(id) {
        Some(desired) => desired,
        None => DesiredDll::KeepInstalled,
    }
}

/// What is staged for a DLL, or to keep it.
pub fn desired_for(profile: &TargetProfile, id: &DllInstallationId) -> (desired: DesiredDll)
    ensures
        desired == staged_or_keep(*profile, id@),
{
    match profile.get(id) {
        Some(desired) => desired.clone(),
        None => DesiredDll::KeepInstalled,
    }
}

/// The rows of the staged changes of a game.
pub open spec fn staged_rows(
    game: GameRow,
    swaps: Seq<PlannedSwap>,
    sources: ReviewSources,
    profile: TargetProfile,
) -> Seq<ReviewRow>
    decreases swaps.len(),
{
    if swaps.len() == 0 {
        Seq::empty()
    } else {
        let before = staged_rows(game, swaps.drop_last(), sources, profile);
        let swap = swaps.last();
        match dll_with_id(game.details@, swap.installation@) {
            Some(installed) => before.push(
                review_row(
                    game,
                    installed,
                    swap,
                    known_version(
                        sources.releases@,
                        sources.imports@,
                        sources.backups@,
                        swap.source_sha256,
                    ),
                    staged_or_keep(profile, swap.installation@),
                ),
            ),
            None => before,
        }
    }
}

/// The DLLs of the latest release.
pub open spec fn latest_of(sources: ReviewSources) -> Seq<CatalogDll> {
    match sources.latest {
        Some(release) => release.dlls@,
        None => Seq::empty(),
    }
}

/// What comes of the choices that are staged for a game.
pub open spec fn previewed(
    game: GameRow,
    sources: ReviewSources,
    profile: TargetProfile,
) -> ProfileOutcome {
    profile_outcome(
        only_listed(profile.targets@, id_set(ids_of(game.details@))),
        game.details@,
        latest_of(sources),
        sources.cached@,
        sources.backups@,
    )
}

/// What the user is told when staged choices cannot be met. Identifiers of the
/// program are kept out of it.
pub open spec fn preview_error_wording(error: Seq<char>) -> Seq<char> {
    if occurs(error, "desired source is unavailable"@) {
        "Required DLL source is unavailable. Download it or choose another target."@
    } else if occurs(error, "unknown DLL installation"@) {
        "The selected DLL is no longer present. Rescan and review the target."@
    } else {
        "The staged target cannot be applied."@
    }
}

/// What the user is told when staged choices cannot be met.
pub fn profile_preview_error_label(error: &str) -> (label: &'static str)
    ensures
        label@ == preview_error_wording(error@),
{
    let error = chars_of(error);
    if holds_part(&error, &chars_of("desired source is unavailable")) {
        "Required DLL source is unavailable. Download it or choose another target."
    } else if holds_part(&error, &chars_of("unknown DLL installation")) {
        "The selected DLL is no longer present. Rescan and review the target."
    } else {
        "The staged target cannot be applied."
    }
}

/// The choices that are staged for the DLLs of a game.
pub fn profile_for_game(profile: &TargetProfile, game: &GameRow) -> (part: TargetProfile)
    ensures
        part.targets@ == only_listed(profile.targets@, id_set(ids_of(game.details@))),
        profile.well_formed() ==> part.well_formed(),
{
    let ids = installation_ids(game.details.as_slice());
    profile.part(ids.as_slice(), true)
}

/// What comes of the choices that are staged for a game: its swaps, or why they
/// cannot be planned.
pub fn preview_profile(game: &GameRow, sources: &ReviewSources, profile: &TargetProfile) -> (plan:
    Result<OperationPlan, String>)
    ensures
        match previewed(*game, *sources, *profile) {
            ProfileOutcome::Swaps(swaps) => plan matches Ok(plan) && plan.nonce@ == "preview"@
                && plan.swaps@ == swaps,
            ProfileOutcome::Refused(reason) => plan matches Err(message) && message@
                == "validation failed: "@ + reason,
        },
{
    let part = profile_for_game(profile, game);
    let nothing: Vec<CatalogDll> = Vec::new();
    let latest = match sources.latest {
        Some(release) => release.dlls.as_slice(),
        None => nothing.as_slice(),
    };
    proof {
        assert(latest@ =~= latest_of(*sources));
    }
    match plan_target_profile(
        "preview",
        game.details.as_slice(),
        latest,
        sources.cached,
        sources.backups,
        &part,
    ) {
        Ok(plan) => Ok(plan),
        Err(error) => Err(error.to_text()),
    }
}

/// The rows of the staged changes of several games, in their order. A game that
/// is gone is left out.
pub open spec fn all_staged_rows(
    ids: Seq<GameId>,
    games: Seq<GameRow>,
    sources: ReviewSources,
    profile: TargetProfile,
) -> Seq<ReviewRow>
    decreases ids.len(),
{
    if ids.len() == 0 {
        Seq::empty()
    } else {
        let before = all_staged_rows(ids.drop_last(), games, sources, profile);
        match game_with_id(games, ids.last()@) {
            Some(game) => match previewed(game, sources, profile) {
                ProfileOutcome::Swaps(swaps) => before + staged_rows(game, swaps, sources, profile),
                ProfileOutcome::Refused(_) => before,
            },
            None => before,
        }
    }
}

/// What went wrong with the staged changes of several games.
pub open spec fn staged_errors(
    ids: Seq<GameId>,
    games: Seq<GameRow>,
    sources: ReviewSources,
    profile: TargetProfile,
) -> Seq<Seq<char>>
    decreases ids.len(),
{
    if ids.len() == 0 {
        Seq::empty()
    } else {
        let before = staged_errors(ids.drop_last(), games, sources, profile);
        match game_with_id(games, ids.last()@) {
            Some(game) => match previewed(game, sources, profile) {
                ProfileOutcome::Swaps(_) => before,
                ProfileOutcome::Refused(reason) => before.push(
                    game.name@ + ": "@ + preview_error_wording("validation failed: "@ + reason),
                ),
            },
            None => before,
        }
    }
}

fn push_staged_rows(
    rows: &mut Vec<ReviewRow>,
    game: &GameRow,
    plan: &OperationPlan,
    sources: &ReviewSources,
    profile: &TargetProfile,
)
    ensures
        final(rows)@ == old(rows)@ + staged_rows(*game, plan.swaps@, *sources, *profile),
{
    let ghost before = rows@;
    let mut at: usize = 0;
    proof {
        assert(rows@ =~= before + staged_rows(*game, plan.swaps@.take(0), *sources, *profile));
    }
    while at < plan.swaps.len()
        invariant
            at <= plan.swaps.len(),
            rows@ == before + staged_rows(*game, plan.swaps@.take(at as int), *sources, *profile),
        decreases plan.swaps.len() - at,
    {
        let swap = &plan.swaps[at];
        proof {
            assert(plan.swaps@.take(at + 1).drop_last() =~= plan.swaps@.take(at as int));
        }
        if let Some(installed) = find_dll(game.details.as_slice(), &swap.installation) {
            let target = version_for_sha(
                sources.releases,
                sources.imports,
                sources.backups,
                &swap.source_sha256,
            );
            let desired = desired_for(profile, &swap.installation);
            rows.push(make_row(game, installed, swap, target, desired));
            proof {
                assert(rows@ =~= before + staged_rows(
                    *game,
                    plan.swaps@.take(at + 1),
                    *sources,
                    *profile,
                ));
            }
        }
        at += 1;
    }
    proof {
        assert(plan.swaps@.take(at as int) =~= plan.swaps@);
    }
}

/// Whether a row belongs to the game with the identifier `id`.
pub open spec fn is_of_game(id: Seq<char>) -> spec_fn(ReviewRow) -> bool {
    |row: ReviewRow| row.game_id@ == id
}

/// What a row is sorted by: where its game first appears, then the family of
/// its DLL.
pub open spec fn place_of(rows: Seq<ReviewRow>, row: ReviewRow) -> int {
    first_where(rows, is_of_game(row.game_id@)) * 8 + kind_rank(name_kind(row.file_name))
}

/// What rows are sorted by.
pub open spec fn place_keys(rows: Seq<ReviewRow>) -> Seq<KeyModel> {
    rows.map_values(
        |row: ReviewRow|
            KeyModel { number: place_of(rows, row), first: Seq::empty(), second: Seq::empty() },
    )
}

/// The rows in the order of the positions `order`.
pub open spec fn rows_at(rows: Seq<ReviewRow>, order: Seq<usize>) -> Seq<ReviewRow> {
    order.map_values(|at: usize| rows[at as int])
}

/// Whether `after` holds the rows of `before`: those of a game together, the
/// games in the order in which they came, and the DLLs of a game in the order
/// of its page.
pub open spec fn are_ordered(before: Seq<ReviewRow>, after: Seq<ReviewRow>) -> bool {
    exists|order: Seq<usize>|
        #![trigger rows_at(before, order)]
        is_stable_order(place_keys(before), false, order) && after == rows_at(before, order)
}

fn first_row_of(rows: &Vec<ReviewRow>, id: &GameId) -> (place: usize)
    ensures
        place == first_where(rows@, is_of_game(id@)),
        place <= rows.len(),
{
    let ghost wanted = is_of_game(id@);
    let mut at: usize = 0;
    while at < rows.len()
        invariant
            at <= rows.len(),
            wanted == is_of_game(id@),
            forall|i: int| 0 <= i < at ==> !wanted(#[trigger] rows@[i]),
        decreases rows.len() - at,
    {
        if rows[at].game_id.same(id) {
            proof {
                first_is(rows@, wanted, at as int);
            }
            return at;
        }
        at += 1;
    }
    proof {
        first_is(rows@, wanted, at as int);
    }
    at
}

/// Keeps the rows of each game together, in the order in which the games came,
/// and lists the DLLs of a game in the order of its page.
pub fn order_rows(rows: &mut Vec<ReviewRow>)
    ensures
        are_ordered(old(rows)@, final(rows)@),
        final(rows).len() == old(rows).len(),
{
    let ghost before = rows@;
    let mut keys: Vec<OrderKey> = Vec::new();
    let mut at: usize = 0;
    while at < rows.len()
        invariant
            at <= rows.len(),
            rows@ == before,
            keys.len() == at,
            forall|i: int| 0 <= i < at ==> (#[trigger] keys@[i])@ == place_keys(before)[i],
        decreases rows.len() - at,
    {
        let place: usize = first_row_of(rows, &rows[at].game_id);
        let rank: u8 = dll_kind_rank(&rows[at].file_name);
        let key = OrderKey {
            number: place as u128 * 8 + rank as u128,
            first: Vec::new(),
            second: Vec::new(),
        };
        proof {
            assert(key.first@ =~= Seq::<char>::empty());
            assert(key.second@ =~= Seq::<char>::empty());
        }
        keys.push(key);
        at += 1;
    }
    proof {
        assert(keys@.map_values(|key: OrderKey| key@) =~= place_keys(before));
    }
    let order = stable_order(&keys, false);
    let mut sorted: Vec<ReviewRow> = Vec::new();
    let mut next: usize = 0;
    while next < order.len()
        invariant
            next <= order.len(),
            order.len() == before.len(),
            rows@ == before,
            is_stable_order(place_keys(before), false, order@),
            sorted.len() == next,
            forall|i: int| 0 <= i < next ==> #[trigger] sorted@[i] == rows_at(before, order@)[i],
        decreases order.len() - next,
    {
        proof {
            assert(order@[next as int] < place_keys(before).len());
        }
        sorted.push(rows[order[next]].clone());
        next += 1;
    }
    proof {
        assert(sorted@ =~= rows_at(before, order@));
    }
    *rows = sorted;
}

/// In ordered rows each game has one run: whatever stands between two rows of a
/// game belongs to it.
pub proof fn each_game_has_one_run(
    before: Seq<ReviewRow>,
    after: Seq<ReviewRow>,
    first: int,
    middle: int,
    last: int,
)
    requires
        are_ordered(before, after),
        0 <= first <= middle <= last < after.len(),
        after[first].game_id@ == after[last].game_id@,
    ensures
        after[middle].game_id@ == after[first].game_id@,
{
    let order = choose|order: Seq<usize>|
        #![trigger rows_at(before, order)]
        is_stable_order(place_keys(before), false, order) && after == rows_at(before, order);
    if first < middle && middle < last {
        let keys = place_keys(before);
        let one = order[first] as int;
        let two = order[middle] as int;
        let three = order[last] as int;
        assert(crate::order::goes_before(keys, false, one, two));
        assert(crate::order::goes_before(keys, false, two, three));
        assert(keys[one].number <= keys[two].number <= keys[three].number);
        let here = first_where(before, is_of_game(before[one].game_id@));
        let there = first_where(before, is_of_game(before[two].game_id@));
        assert(here == there);
        crate::lists::first_is_wanted(before, is_of_game(before[one].game_id@));
        crate::lists::first_is_wanted(before, is_of_game(before[two].game_id@));
        let wanted = is_of_game(before[two].game_id@);
        assert(wanted(before[two]));
        assert(there < before.len()) by {
            if there == before.len() {
                assert(!wanted(before[two]));
            }
        }
    }
}

/// Ordered rows list each game's DLLs by family, super resolution first.
pub proof fn families_are_in_order(
    before: Seq<ReviewRow>,
    after: Seq<ReviewRow>,
    early: int,
    late: int,
)
    requires
        are_ordered(before, after),
        0 <= early < late < after.len(),
        after[early].game_id@ == after[late].game_id@,
    ensures
        kind_rank(name_kind(after[early].file_name)) <= kind_rank(name_kind(after[late].file_name)),
{
    let order = choose|order: Seq<usize>|
        #![trigger rows_at(before, order)]
        is_stable_order(place_keys(before), false, order) && after == rows_at(before, order);
    let keys = place_keys(before);
    assert(crate::order::goes_before(keys, false, order[early] as int, order[late] as int));
    assert(keys[order[early] as int].number <= keys[order[late] as int].number);
}

/// What a review lists.
#[derive(Debug, PartialEq, Eq)]
pub struct ReviewContent {
    pub rows: Vec<ReviewRow>,
    pub errors: Vec<String>,
    pub ready: bool,
}

/// Whether `content` is what a review for `intent` lists.
pub open spec fn is_review_of(
    intent: ReviewIntent,
    games: Seq<GameRow>,
    sources: ReviewSources,
    profile: TargetProfile,
    content: ReviewContent,
) -> bool {
    match intent {
        ReviewIntent::QuickDlss(ids) => match sources.latest {
            Some(release) => {
                &&& are_ordered(all_update_rows(ids@, games, *release, true), content.rows@)
                &&& content.errors.len() == 0
                &&& content.ready
            },
            None => content.rows.len() == 0 && content.errors.len() == 0 && !content.ready,
        },
        ReviewIntent::AllDlls(ids) => match sources.latest {
            Some(release) => {
                &&& are_ordered(all_update_rows(ids@, games, *release, false), content.rows@)
                &&& content.errors.len() == 0
                &&& content.ready
            },
            None => content.rows.len() == 0 && content.errors.len() == 0 && !content.ready,
        },
        ReviewIntent::Profiles(ids) => {
            &&& are_ordered(all_staged_rows(ids@, games, sources, profile), content.rows@)
            &&& text_views(content.errors@) == staged_errors(ids@, games, sources, profile)
            &&& content.ready
        },
    }
}

fn list_updates(
    ids: &Vec<GameId>,
    games: &[GameRow],
    latest: Option<&CachedRelease>,
    dlss_only: bool,
) -> (content: ReviewContent)
    ensures
        match latest {
            Some(release) => {
                &&& are_ordered(all_update_rows(ids@, games@, *release, dlss_only), content.rows@)
                &&& content.errors.len() == 0
                &&& content.ready
            },
            None => content.rows.len() == 0 && content.errors.len() == 0 && !content.ready,
        },
{
    let release = match latest {
        Some(release) => release,
        None => {
            return ReviewContent { rows: Vec::new(), errors: Vec::new(), ready: false };
        },
    };
    let mut rows: Vec<ReviewRow> = Vec::new();
    let mut at: usize = 0;
    proof {
        assert(rows@ =~= all_update_rows(ids@.take(0), games@, *release, dlss_only));
    }
    while at < ids.len()
        invariant
            at <= ids.len(),
            latest == Some(release),
            rows@ == all_update_rows(ids@.take(at as int), games@, *release, dlss_only),
        decreases ids.len() - at,
    {
        proof {
            assert(ids@.take(at + 1).drop_last() =~= ids@.take(at as int));
        }
        if let Some(found) = find_row(games, &ids[at]) {
            push_update_rows(&mut rows, &games[found], release, dlss_only);
        }
        at += 1;
    }
    proof {
        assert(ids@.take(at as int) =~= ids@);
    }
    order_rows(&mut rows);
    ReviewContent { rows, errors: Vec::new(), ready: true }
}

fn list_staged(
    ids: &Vec<GameId>,
    games: &[GameRow],
    sources: &ReviewSources,
    profile: &TargetProfile,
) -> (content: ReviewContent)
    ensures
        are_ordered(all_staged_rows(ids@, games@, *sources, *profile), content.rows@),
        text_views(content.errors@) == staged_errors(ids@, games@, *sources, *profile),
        content.ready,
{
    let mut rows: Vec<ReviewRow> = Vec::new();
    let mut errors: Vec<String> = Vec::new();
    let mut at: usize = 0;
    proof {
        assert(rows@ =~= all_staged_rows(ids@.take(0), games@, *sources, *profile));
        assert(text_views(errors@) =~= staged_errors(ids@.take(0), games@, *sources, *profile));
    }
    while at < ids.len()
        invariant
            at <= ids.len(),
            rows@ == all_staged_rows(ids@.take(at as int), games@, *sources, *profile),
            text_views(errors@) == staged_errors(
                ids@.take(at as int),
                games@,
                *sources,
                *profile,
            ),
        decreases ids.len() - at,
    {
        proof {
            assert(ids@.take(at + 1).drop_last() =~= ids@.take(at as int));
        }
        if let Some(found) = find_row(games, &ids[at]) {
            let game = &games[found];
            match preview_profile(game, sources, profile) {
                Ok(plan) => {
                    push_staged_rows(&mut rows, game, &plan, sources, profile);
                },
                Err(error) => {
                    let ghost before = text_views(errors@);
                    let line = join_three(&game.name, ": ", profile_preview_error_label(&error));
                    let ghost said = line@;
                    errors.push(line);
                    proof {
                        assert(text_views(errors@) =~= before.push(said));
                    }
                },
            }
        }
        at += 1;
    }
    proof {
        assert(ids@.take(at as int) =~= ids@);
    }
    order_rows(&mut rows);
    ReviewContent { rows, errors, ready: true }
}

/// Lists what a review shows. One-click updates need the latest release; until
/// it is downloaded there is nothing to list.
pub fn build_review_rows(
    intent: &ReviewIntent,
    games: &[GameRow],
    sources: &ReviewSources,
    profile: &TargetProfile,
) -> (content: ReviewContent)
    ensures
        is_review_of(*intent, games@, *sources, *profile, content),
{
    match intent {
        ReviewIntent::QuickDlss(ids) => list_updates(ids, games, sources.latest, true),
        ReviewIntent::AllDlls(ids) => list_updates(ids, games, sources.latest, false),
        ReviewIntent::Profiles(ids) => list_staged(ids, games, sources, profile),
    }
}

/// The runs of consecutive rows that belong to one game: where each begins, and
/// where the next does.
pub open spec fn game_runs(rows: Seq<ReviewRow>) -> Seq<(int, int)>
    decreases rows.len(),
{
    if rows.len() == 0 {
        Seq::empty()
    } else {
        let before = game_runs(rows.drop_last());
        if before.len() > 0 && rows[before.last().0].game_id@ == rows.last().game_id@ {
            before.drop_last().push((before.last().0, rows.len() as int))
        } else {
            before.push((rows.len() - 1, rows.len() as int))
        }
    }
}

/// A run as a pair of numbers.
pub open spec fn run_view(run: std::ops::Range<usize>) -> (int, int) {
    (run.start as int, run.end as int)
}

/// The runs of consecutive rows that belong to one game.
pub fn group_by_game(rows: &[ReviewRow]) -> (groups: Vec<std::ops::Range<usize>>)
    ensures
        groups@.map_values(|run: std::ops::Range<usize>| run_view(run)) == game_runs(rows@),
{
    let mut groups: Vec<std::ops::Range<usize>> = Vec::new();
    let mut open: Option<(usize, usize)> = None;
    let mut at: usize = 0;
    let ghost closed = groups@.map_values(|run: std::ops::Range<usize>| run_view(run));
    proof {
        assert(closed =~= Seq::<(int, int)>::empty());
    }
    while at < rows.len()
        invariant
            at <= rows@.len(),
            closed == groups@.map_values(|run: std::ops::Range<usize>| run_view(run)),
            match open {
                Some((start, end)) => {
                    &&& start < at
                    &&& end == at
                    &&& game_runs(rows@.take(at as int)) == closed.push((start as int, end as int))
                },
                None => {
                    &&& at == 0
                    &&& closed.len() == 0
                },
            },
        decreases rows@.len() - at,
    {
        let ghost before = game_runs(rows@.take(at as int));
        proof {
            assert(rows@.take(at + 1).drop_last() =~= rows@.take(at as int));
        }
        match open {
            Some((start, end)) => {
                proof {
                    assert(before.drop_last() =~= closed);
                    assert(rows@.take(at + 1)[start as int] == rows@[start as int]);
                }
                if rows[start].game_id.same(&rows[at].game_id) {
                    open = Some((start, at + 1));
                } else {
                    groups.push(start..end);
                    proof {
                        let more = groups@.map_values(
                            |run: std::ops::Range<usize>| run_view(run),
                        );
                        assert(more =~= closed.push((start as int, end as int)));
                        closed = more;
                    }
                    open = Some((at, at + 1));
                }
            },
            None => {
                proof {
                    assert(before =~= closed);
                }
                open = Some((at, at + 1));
            },
        }
        at += 1;
    }
    proof {
        assert(rows@.take(at as int) =~= rows@);
    }
    if let Some((start, end)) = open {
        groups.push(start..end);
        proof {
            assert(groups@.map_values(|run: std::ops::Range<usize>| run_view(run))
                =~= closed.push((start as int, end as int)));
        }
    }
    groups
}

/// The runs cover the rows without gaps, none is empty, and all rows of a run
/// belong to one game.
pub proof fn runs_partition_the_rows(rows: Seq<ReviewRow>)
    ensures
        rows.len() > 0 ==> game_runs(rows).len() > 0 && game_runs(rows)[0].0 == 0
            && game_runs(rows).last().1 == rows.len(),
        rows.len() == 0 ==> game_runs(rows).len() == 0,
        forall|i: int|
            0 <= i < game_runs(rows).len() ==> 0 <= (#[trigger] game_runs(rows)[i]).0
                < game_runs(rows)[i].1 <= rows.len(),
        forall|i: int, next: int|
            0 <= i && next == i + 1 && next < game_runs(rows).len() ==> (#[trigger] game_runs(
                rows,
            )[next]).0 == (#[trigger] game_runs(rows)[i]).1,
        forall|i: int, row: int|
            #![trigger game_runs(rows)[i], rows[row]]
            0 <= i < game_runs(rows).len() && game_runs(rows)[i].0 <= row < game_runs(rows)[i].1
                ==> rows[row].game_id@ == rows[game_runs(rows)[i].0].game_id@,
    decreases rows.len(),
{
    if rows.len() > 0 {
        let shorter = rows.drop_last();
        runs_partition_the_rows(shorter);
        let before = game_runs(shorter);
        let runs = game_runs(rows);
        if shorter.len() > 0 {
            assert(before.last() == before[before.len() - 1]);
        }
        assert forall|i: int, row: int|
            #![trigger runs[i], rows[row]]
            0 <= i < runs.len() && runs[i].0 <= row < runs[i].1 implies rows[row].game_id@
            == rows[runs[i].0].game_id@ by {
            if row < shorter.len() {
                assert(shorter[row] == rows[row]);
                if i < before.len() {
                    assert(runs[i].0 == before[i].0);
                    assert(before[i].0 <= row < before[i].1);
                    assert(shorter[before[i].0] == rows[before[i].0]);
                }
            }
        }
        assert forall|i: int, next: int|
            0 <= i && next == i + 1 && next < runs.len() implies (#[trigger] runs[next]).0 == (
        #[trigger] runs[i]).1 by {
            if next < before.len() {
                assert(before[next].0 == before[i].1);
            }
        }
    }
}

/// How many rows are checked.
pub open spec fn checked_count(rows: Seq<ReviewRow>) -> nat
    decreases rows.len(),
{
    if rows.len() == 0 {
        0
    } else {
        checked_count(rows.drop_last()) + if rows.last().checked {
            1nat
        } else {
            0nat
        }
    }
}

/// How many rows are checked.
pub fn count_checked(rows: &[ReviewRow]) -> (count: usize)
    ensures
        count == checked_count(rows@),
        count <= rows@.len(),
{
    let mut count: usize = 0;
    let mut at: usize = 0;
    while at < rows.len()
        invariant
            at <= rows@.len(),
            count == checked_count(rows@.take(at as int)),
            count <= at,
        decreases rows@.len() - at,
    {
        proof {
            assert(rows@.take(at + 1).drop_last() =~= rows@.take(at as int));
        }
        if rows[at].checked {
            count += 1;
        }
        at += 1;
    }
    proof {
        assert(rows@.take(at as int) =~= rows@);
    }
    count
}

/// Checks or clears the rows from `start` to `end`.
pub fn set_checked(rows: &mut Vec<ReviewRow>, start: usize, end: usize, checked: bool)
    requires
        start <= end <= old(rows).len(),
    ensures
        final(rows).len() == old(rows).len(),
        forall|i: int|
            0 <= i < final(rows).len() ==> #[trigger] final(rows)@[i] == if start <= i < end {
                ReviewRow { checked, ..old(rows)@[i] }
            } else {
                old(rows)@[i]
            },
{
    let ghost before = rows@;
    let mut at: usize = start;
    while at < end
        invariant
            start <= at <= end <= rows.len(),
            rows.len() == before.len(),
            forall|i: int|
                0 <= i < rows.len() ==> #[trigger] rows@[i] == if start <= i < at {
                    ReviewRow { checked, ..before[i] }
                } else {
                    before[i]
                },
        decreases end - at,
    {
        rows[at].checked = checked;
        at += 1;
    }
}

/// Whether a checked row replaces a Streamline DLL.
pub fn touches_streamline(rows: &[ReviewRow]) -> (touches: bool)
    ensures
        touches <==> exists|i: int|
            0 <= i < rows@.len() && (#[trigger] rows@[i]).checked && row_is_streamline(rows@[i]),
{
    let mut at: usize = 0;
    while at < rows.len()
        invariant
            at <= rows@.len(),
            forall|i: int|
                0 <= i < at ==> !((#[trigger] rows@[i]).checked && row_is_streamline(rows@[i])),
        decreases rows@.len() - at,
    {
        if rows[at].checked && rows[at].is_streamline() {
            return true;
        }
        at += 1;
    }
    false
}

/// Whether a checked row belongs to a game that is known to be risky under
/// `name`.
pub open spec fn is_checked_risk(rows: Seq<ReviewRow>, name: Seq<char>) -> bool {
    exists|i: int|
        0 <= i < rows.len() && (#[trigger] rows[i]).checked && (rows[i].known_risk matches Some(risk)
            && risk@ == name)
}

/// Whether a list holds `name`.
pub open spec fn holds_name(names: Seq<&'static str>, name: Seq<char>) -> bool {
    exists|i: int| 0 <= i < names.len() && (#[trigger] names[i])@ == name
}

/// Whether names are in strictly ascending order.
pub open spec fn names_ascend(names: Seq<&'static str>) -> bool {
    forall|i: int, j: int|
        0 <= i < j < names.len() ==> crate::order::precedes(
            crate::order::code_points((#[trigger] names[i])@),
            crate::order::code_points((#[trigger] names[j])@),
        )
}

fn insert_name(names: &mut Vec<&'static str>, name: &'static str)
    requires
        names_ascend(old(names)@),
    ensures
        names_ascend(final(names)@),
        forall|other: Seq<char>|
            #[trigger] holds_name(final(names)@, other) == (holds_name(old(names)@, other) || other
                == name@),
{
    let ghost before = names@;
    let wanted = chars_of(name);
    let mut place: usize = 0;
    while place < names.len() && crate::order::chars_precede(&chars_of(names[place]), &wanted)
        invariant
            place <= names.len(),
            names@ == before,
            wanted@ == name@,
            forall|i: int|
                0 <= i < place ==> crate::order::precedes(
                    crate::order::code_points((#[trigger] before[i])@),
                    crate::order::code_points(name@),
                ),
        decreases names.len() - place,
    {
        place += 1;
    }
    if place < names.len() && crate::text::same_text(names[place], name) {
        proof {
            assert forall|other: Seq<char>| #[trigger] holds_name(before, other) == (holds_name(
                before,
                other,
            ) || other == name@) by {
                if other == name@ {
                    assert(before[place as int]@ == other);
                }
            }
        }
        return ;
    }
    names.insert(place, name);
    proof {
        let after = names@;
        assert forall|i: int, j: int| 0 <= i < j < after.len() implies crate::order::precedes(
            crate::order::code_points((#[trigger] after[i])@),
            crate::order::code_points((#[trigger] after[j])@),
        ) by {
            let key = crate::order::code_points(name@);
            if place < before.len() {
                crate::order::precedes_is_total(
                    crate::order::code_points(before[place as int]@),
                    key,
                );
                if crate::order::code_points(before[place as int]@) == key {
                    crate::order::equal_code_points(before[place as int]@, name@);
                }
            }
            let from = if i < place { i } else { i - 1 };
            let to = if j < place { j } else { j - 1 };
            if i != place {
                assert(after[i] == before[from]);
            }
            if j != place {
                assert(after[j] == before[to]);
            }
            if i == place && to > place {
                crate::order::precedes_is_transitive(
                    key,
                    crate::order::code_points(before[place as int]@),
                    crate::order::code_points(before[to]@),
                );
            }
        }
        assert forall|other: Seq<char>| #[trigger] holds_name(after, other) == (holds_name(
            before,
            other,
        ) || other == name@) by {
            if holds_name(before, other) {
                let i = choose|i: int| 0 <= i < before.len() && (#[trigger] before[i])@ == other;
                if i < place {
                    assert(after[i]@ == other);
                } else {
                    assert(after[i + 1]@ == other);
                }
            }
            if other == name@ {
                assert(after[place as int]@ == other);
            }
            if holds_name(after, other) {
                let i = choose|i: int| 0 <= i < after.len() && (#[trigger] after[i])@ == other;
                if i < place {
                    assert(before[i]@ == other);
                } else if i > place {
                    assert(before[i - 1]@ == other);
                }
            }
        }
    }
}

/// The names under which the games of checked rows are known to be risky, each
/// once and in order.
pub fn checked_risk_games(rows: &[ReviewRow]) -> (names: Vec<&'static str>)
    ensures
        names_ascend(names@),
        forall|name: Seq<char>|
            #[trigger] holds_name(names@, name) == is_checked_risk(rows@, name),
{
    let mut names: Vec<&'static str> = Vec::new();
    let mut at: usize = 0;
    while at < rows.len()
        invariant
            at <= rows@.len(),
            names_ascend(names@),
            forall|name: Seq<char>|
                #[trigger] holds_name(names@, name) == is_checked_risk(
                    rows@.take(at as int),
                    name,
                ),
        decreases rows@.len() - at,
    {
        let ghost before = names@;
        if rows[at].checked {
            if let Some(risk) = rows[at].known_risk {
                insert_name(&mut names, risk);
            }
        }
        proof {
            let row = rows@[at as int];
            let done = rows@.take(at as int);
            let more = rows@.take(at + 1);
            assert forall|name: Seq<char>| #[trigger]
                holds_name(names@, name) == is_checked_risk(more, name) by {
                let here = row.checked && (row.known_risk matches Some(risk) && risk@ == name);
                assert(holds_name(before, name) == is_checked_risk(done, name));
                if is_checked_risk(done, name) {
                    let i = choose|i: int|
                        0 <= i < done.len() && (#[trigger] done[i]).checked && (
                        done[i].known_risk matches Some(risk) && risk@ == name);
                    assert(more[i] == done[i]);
                }
                if here {
                    assert(more[at as int] == row);
                }
                if is_checked_risk(more, name) && !here {
                    let i = choose|i: int|
                        0 <= i < more.len() && (#[trigger] more[i]).checked && (
                        more[i].known_risk matches Some(risk) && risk@ == name);
                    assert(i < at);
                    assert(done[i] == more[i]);
                }
            }
        }
        at += 1;
    }
    proof {
        assert(rows@.take(at as int) =~= rows@);
    }
    names
}

/// The choices for one game.
#[derive(Debug, PartialEq, Eq)]
pub struct GameChoices {
    pub game_id: GameId,
    pub profile: TargetProfile,
}

/// Whether a checked row belongs to the game with the identifier `id`.
pub open spec fn is_chosen_game(rows: Seq<ReviewRow>, id: Seq<char>) -> bool {
    exists|i: int| 0 <= i < rows.len() && (#[trigger] rows[i]).checked && rows[i].game_id@ == id
}

/// What the checked rows choose for a DLL of a game. The last one wins where
/// several do.
pub open spec fn choice_for(rows: Seq<ReviewRow>, game: Seq<char>, dll: Seq<char>) -> Option<
    DesiredDll,
>
    decreases rows.len(),
{
    if rows.len() == 0 {
        None
    } else if rows.last().checked && rows.last().game_id@ == game && rows.last().dll_id@ == dll {
        Some(rows.last().desired)
    } else {
        choice_for(rows.drop_last(), game, dll)
    }
}

/// Whether games are in strictly ascending order of their identifiers.
pub open spec fn games_ascend(choices: Seq<GameChoices>) -> bool {
    forall|i: int, j: int|
        0 <= i < j < choices.len() ==> crate::order::precedes(
            crate::order::code_points((#[trigger] choices[i]).game_id@),
            crate::order::code_points((#[trigger] choices[j]).game_id@),
        )
}

/// Whether a list has an entry for the game with the identifier `id`.
pub open spec fn has_choices(choices: Seq<GameChoices>, id: Seq<char>) -> bool {
    exists|i: int| 0 <= i < choices.len() && (#[trigger] choices[i]).game_id@ == id
}

/// Whether `choices` are what the checked rows ask for: one entry for each game
/// with a checked row, in the order of the identifiers, that stages what the
/// rows choose and nothing else.
pub open spec fn are_choices_of(rows: Seq<ReviewRow>, choices: Seq<GameChoices>) -> bool {
    &&& games_ascend(choices)
    &&& forall|id: Seq<char>| #[trigger] has_choices(choices, id) == is_chosen_game(rows, id)
    &&& forall|i: int|
        0 <= i < choices.len() ==> (#[trigger] choices[i]).profile.well_formed()
    &&& forall|i: int, dll: Seq<char>|
        #![trigger choices[i].profile.staged(dll)]
        0 <= i < choices.len() ==> choices[i].profile.staged(dll) == choice_for(
            rows,
            choices[i].game_id@,
            dll,
        )
}

proof fn absent_choice(rows: Seq<ReviewRow>, game: Seq<char>, dll: Seq<char>)
    requires
        !is_chosen_game(rows, game),
    ensures
        choice_for(rows, game, dll) is None,
    decreases rows.len(),
{
    if rows.len() > 0 {
        let shorter = rows.drop_last();
        assert(!(rows[rows.len() - 1].checked && rows[rows.len() - 1].game_id@ == game));
        assert(!is_chosen_game(shorter, game)) by {
            if is_chosen_game(shorter, game) {
                let i = choose|i: int|
                    0 <= i < shorter.len() && (#[trigger] shorter[i]).checked && shorter[i].game_id@
                        == game;
                assert(rows[i] == shorter[i]);
            }
        }
        absent_choice(shorter, game, dll);
    }
}

/// Enters what one checked row asks for.
fn add_choice(choices: &mut Vec<GameChoices>, row: &ReviewRow)
    requires
        games_ascend(old(choices)@),
        forall|i: int|
            0 <= i < old(choices).len() ==> (#[trigger] old(choices)@[i]).profile.well_formed(),
    ensures
        games_ascend(final(choices)@),
        forall|id: Seq<char>|
            #[trigger] has_choices(final(choices)@, id) == (has_choices(old(choices)@, id) || id
                == row.game_id@),
        forall|i: int|
            0 <= i < final(choices).len() ==> (#[trigger] final(choices)@[i]).profile.well_formed(),
        forall|i: int, dll: Seq<char>|
            #![trigger final(choices)@[i].profile.staged(dll)]
            0 <= i < final(choices).len() ==> if final(choices)@[i].game_id@ == row.game_id@ && dll
                == row.dll_id@ {
                final(choices)@[i].profile.staged(dll) == Some(row.desired)
            } else {
                ||| exists|j: int|
                    0 <= j < old(choices).len() && (#[trigger] old(choices)@[j]).game_id@ == final(
                        choices)@[i].game_id@ && final(choices)@[i].profile.staged(dll) == old(
                        choices)@[j].profile.staged(dll)
                ||| !has_choices(old(choices)@, final(choices)@[i].game_id@) && final(
                    choices)@[i].profile.staged(dll) is None
            },
{
    let ghost before = choices@;
    let wanted = chars_of(&row.game_id.0);
    let ghost key = crate::order::code_points(row.game_id@);
    let mut place: usize = 0;
    while place < choices.len() && crate::order::chars_precede(
        &chars_of(&choices[place].game_id.0),
        &wanted,
    )
        invariant
            place <= choices.len(),
            choices@ == before,
            wanted@ == row.game_id@,
            key == crate::order::code_points(row.game_id@),
            forall|i: int|
                0 <= i < place ==> crate::order::precedes(
                    crate::order::code_points((#[trigger] before[i]).game_id@),
                    key,
                ),
        decreases choices.len() - place,
    {
        place += 1;
    }
    if place < choices.len() && choices[place].game_id.same(&row.game_id) {
        choices[place].profile.insert(row.dll_id.clone(), row.desired.clone());
        proof {
            let after = choices@;
            assert forall|i: int| 0 <= i < after.len() implies (#[trigger] after[i]).game_id
                == before[i].game_id && (i != place ==> after[i] == before[i]) by {}
            assert forall|i: int, j: int| 0 <= i < j < after.len() implies crate::order::precedes(
                crate::order::code_points((#[trigger] after[i]).game_id@),
                crate::order::code_points((#[trigger] after[j]).game_id@),
            ) by {
                assert(after[i].game_id == before[i].game_id);
                assert(after[j].game_id == before[j].game_id);
            }
            assert forall|id: Seq<char>| #[trigger] has_choices(after, id) == (has_choices(
                before,
                id,
            ) || id == row.game_id@) by {
                if has_choices(before, id) {
                    let i = choose|i: int|
                        0 <= i < before.len() && (#[trigger] before[i]).game_id@ == id;
                    assert(after[i].game_id@ == id);
                }
                if id == row.game_id@ {
                    assert(after[place as int].game_id@ == id);
                }
                if has_choices(after, id) {
                    let i = choose|i: int|
                        0 <= i < after.len() && (#[trigger] after[i]).game_id@ == id;
                    assert(before[i].game_id@ == id);
                }
            }
            assert forall|i: int, dll: Seq<char>|
                #![trigger after[i].profile.staged(dll)]
                0 <= i < after.len() implies if after[i].game_id@ == row.game_id@ && dll
                == row.dll_id@ {
                after[i].profile.staged(dll) == Some(row.desired)
            } else {
                ||| exists|j: int|
                    0 <= j < before.len() && (#[trigger] before[j]).game_id@ == after[i].game_id@
                        && after[i].profile.staged(dll) == before[j].profile.staged(dll)
                ||| !has_choices(before, after[i].game_id@) && after[i].profile.staged(dll) is None
            } by {
                if after[i].game_id@ == row.game_id@ && i != place {
                    crate::order::precedes_is_irreflexive(key);
                    if i < place {
                        assert(crate::order::precedes(
                            crate::order::code_points(before[i].game_id@),
                            key,
                        ));
                    } else {
                        assert(crate::order::precedes(
                            crate::order::code_points(before[place as int].game_id@),
                            crate::order::code_points(before[i].game_id@),
                        ));
                    }
                }
                assert(before[i].game_id@ == after[i].game_id@);
            }
        }
    } else {
        let mut profile = TargetProfile::new();
        proof {
            assert forall|dll: Seq<char>| #[trigger] profile.staged(dll) is None by {
                assert(profile.targets@ =~= Seq::empty());
            }
        }
        profile.insert(row.dll_id.clone(), row.desired.clone());
        choices.insert(place, GameChoices { game_id: row.game_id.clone(), profile });
        proof {
            let after = choices@;
            assert forall|i: int| 0 <= i < before.len() implies (#[trigger] before[i]).game_id@
                != row.game_id@ by {
                crate::order::precedes_is_irreflexive(key);
                if i < place {
                    assert(crate::order::precedes(
                        crate::order::code_points(before[i].game_id@),
                        key,
                    ));
                } else if i > place {
                    let here = crate::order::code_points(before[place as int].game_id@);
                    assert(crate::order::precedes(
                        here,
                        crate::order::code_points(before[i].game_id@),
                    ));
                    if before[i].game_id@ == row.game_id@ {
                        assert(crate::order::precedes(here, key));
                    }
                }
            }
            assert forall|i: int| 0 <= i < after.len() implies {
                &&& i < place ==> #[trigger] after[i] == before[i]
                &&& i > place ==> after[i] == before[i - 1]
            } by {}
            assert forall|i: int, j: int| 0 <= i < j < after.len() implies crate::order::precedes(
                crate::order::code_points((#[trigger] after[i]).game_id@),
                crate::order::code_points((#[trigger] after[j]).game_id@),
            ) by {
                if place < before.len() {
                    crate::order::precedes_is_total(
                        crate::order::code_points(before[place as int].game_id@),
                        key,
                    );
                    if crate::order::code_points(before[place as int].game_id@) == key {
                        crate::order::equal_code_points(
                            before[place as int].game_id@,
                            row.game_id@,
                        );
                    }
                }
                let from = if i < place { i } else { i - 1 };
                let to = if j < place { j } else { j - 1 };
                if i != place {
                    assert(after[i] == before[from]);
                }
                if j != place {
                    assert(after[j] == before[to]);
                }
                if i == place && to > place {
                    crate::order::precedes_is_transitive(
                        key,
                        crate::order::code_points(before[place as int].game_id@),
                        crate::order::code_points(before[to].game_id@),
                    );
                }
            }
            assert forall|id: Seq<char>| #[trigger] has_choices(after, id) == (has_choices(
                before,
                id,
            ) || id == row.game_id@) by {
                if has_choices(before, id) {
                    let i = choose|i: int|
                        0 <= i < before.len() && (#[trigger] before[i]).game_id@ == id;
                    if i < place {
                        assert(after[i].game_id@ == id);
                    } else {
                        assert(after[i + 1].game_id@ == id);
                    }
                }
                if id == row.game_id@ {
                    assert(after[place as int].game_id@ == id);
                }
                if has_choices(after, id) {
                    let i = choose|i: int|
                        0 <= i < after.len() && (#[trigger] after[i]).game_id@ == id;
                    if i < place {
                        assert(before[i].game_id@ == id);
                    } else if i > place {
                        assert(before[i - 1].game_id@ == id);
                    }
                }
            }
            assert forall|i: int, dll: Seq<char>|
                #![trigger after[i].profile.staged(dll)]
                0 <= i < after.len() implies if after[i].game_id@ == row.game_id@ && dll
                == row.dll_id@ {
                after[i].profile.staged(dll) == Some(row.desired)
            } else {
                ||| exists|j: int|
                    0 <= j < before.len() && (#[trigger] before[j]).game_id@ == after[i].game_id@
                        && after[i].profile.staged(dll) == before[j].profile.staged(dll)
                ||| !has_choices(before, after[i].game_id@) && after[i].profile.staged(dll) is None
            } by {
                if i < place {
                    assert(before[i] == after[i]);
                } else if i > place {
                    assert(before[i - 1] == after[i]);
                }
            }
        }
    }
}

/// What the checked rows ask for, game by game.
pub fn collect_choices(rows: &[ReviewRow]) -> (choices: Vec<GameChoices>)
    ensures
        are_choices_of(rows@, choices@),
{
    let mut choices: Vec<GameChoices> = Vec::new();
    let mut at: usize = 0;
    proof {
        assert(are_choices_of(rows@.take(0), choices@));
    }
    while at < rows.len()
        invariant
            at <= rows@.len(),
            are_choices_of(rows@.take(at as int), choices@),
        decreases rows@.len() - at,
    {
        let ghost before = choices@;
        if rows[at].checked {
            add_choice(&mut choices, &rows[at]);
        }
        proof {
            choices_grow(rows@, at as int, before, choices@);
        }
        at += 1;
    }
    proof {
        assert(rows@.take(at as int) =~= rows@);
    }
    choices
}

proof fn choices_grow(
    rows: Seq<ReviewRow>,
    at: int,
    before: Seq<GameChoices>,
    after: Seq<GameChoices>,
)
    requires
        0 <= at < rows.len(),
        are_choices_of(rows.take(at), before),
        !rows[at].checked ==> after == before,
        rows[at].checked ==> {
            &&& games_ascend(after)
            &&& forall|id: Seq<char>|
                #[trigger] has_choices(after, id) == (has_choices(before, id) || id
                    == rows[at].game_id@)
            &&& forall|i: int|
                0 <= i < after.len() ==> (#[trigger] after[i]).profile.well_formed()
            &&& forall|i: int, dll: Seq<char>|
                #![trigger after[i].profile.staged(dll)]
                0 <= i < after.len() ==> if after[i].game_id@ == rows[at].game_id@ && dll
                    == rows[at].dll_id@ {
                    after[i].profile.staged(dll) == Some(rows[at].desired)
                } else {
                    ||| exists|j: int|
                        0 <= j < before.len() && (#[trigger] before[j]).game_id@ == after[i].game_id@
                            && after[i].profile.staged(dll) == before[j].profile.staged(dll)
                    ||| !has_choices(before, after[i].game_id@) && after[i].profile.staged(
                        dll,
                    ) is None
                }
        },
    ensures
        are_choices_of(rows.take(at + 1), after),
{
    let done = rows.take(at);
    let more = rows.take(at + 1);
    let row = rows[at];
    assert(more.drop_last() =~= done);
    assert forall|id: Seq<char>| #[trigger] has_choices(after, id) == is_chosen_game(more, id) by {
        assert(has_choices(before, id) == is_chosen_game(done, id));
        if is_chosen_game(done, id) {
            let i = choose|i: int|
                0 <= i < done.len() && (#[trigger] done[i]).checked && done[i].game_id@ == id;
            assert(more[i] == done[i]);
        }
        if row.checked && row.game_id@ == id {
            assert(more[at] == row);
        }
        if is_chosen_game(more, id) {
            let i = choose|i: int|
                0 <= i < more.len() && (#[trigger] more[i]).checked && more[i].game_id@ == id;
            if i < at {
                assert(done[i] == more[i]);
            }
        }
    }
    assert forall|i: int, dll: Seq<char>|
        #![trigger after[i].profile.staged(dll)]
        0 <= i < after.len() implies after[i].profile.staged(dll) == choice_for(
        more,
        after[i].game_id@,
        dll,
    ) by {
        let game = after[i].game_id@;
        if !row.checked {
            assert(before[i].profile.staged(dll) == choice_for(done, game, dll));
        } else if !(game == row.game_id@ && dll == row.dll_id@) {
            if exists|j: int|
                0 <= j < before.len() && (#[trigger] before[j]).game_id@ == game
                    && after[i].profile.staged(dll) == before[j].profile.staged(dll) {
                let j = choose|j: int|
                    0 <= j < before.len() && (#[trigger] before[j]).game_id@ == game
                        && after[i].profile.staged(dll) == before[j].profile.staged(dll);
                assert(before[j].profile.staged(dll) == choice_for(done, game, dll));
            } else {
                assert(has_choices(before, game) == is_chosen_game(done, game));
                absent_choice(done, game, dll);
            }
        }
    }
}

/// Nothing is asked for that is not checked: a game without a checked row gets
/// no entry, and a DLL without one is left as it is.
pub proof fn unchecked_rows_ask_for_nothing(
    rows: Seq<ReviewRow>,
    choices: Seq<GameChoices>,
    game: Seq<char>,
    dll: Seq<char>,
)
    requires
        are_choices_of(rows, choices),
        forall|i: int|
            0 <= i < rows.len() && (#[trigger] rows[i]).checked ==> !(rows[i].game_id@ == game
                && rows[i].dll_id@ == dll),
    ensures
        choice_for(rows, game, dll) is None,
        !is_chosen_game(rows, game) ==> !has_choices(choices, game),
        forall|i: int|
            0 <= i < choices.len() && (#[trigger] choices[i]).game_id@ == game
                ==> choices[i].profile.staged(dll) is None,
{
    unchosen(rows, game, dll);
    assert(has_choices(choices, game) == is_chosen_game(rows, game));
}

proof fn unchosen(rows: Seq<ReviewRow>, game: Seq<char>, dll: Seq<char>)
    requires
        forall|i: int|
            0 <= i < rows.len() && (#[trigger] rows[i]).checked ==> !(rows[i].game_id@ == game
                && rows[i].dll_id@ == dll),
    ensures
        choice_for(rows, game, dll) is None,
    decreases rows.len(),
{
    if rows.len() > 0 {
        let shorter = rows.drop_last();
        assert forall|i: int| 0 <= i < shorter.len() && (#[trigger] shorter[i]).checked implies !(
        shorter[i].game_id@ == game && shorter[i].dll_id@ == dll) by {
            assert(rows[i] == shorter[i]);
        }
        assert(rows[rows.len() - 1] == rows.last());
        unchosen(shorter, game, dll);
    }
}

/// A choice that pins a content is met by that content or not at all.
pub proof fn pinned_content_is_installed(
    desired: DesiredDll,
    current: DllInstallation,
    latest: Seq<CatalogDll>,
    cached: Seq<CatalogDll>,
    backups: Seq<BackupRecord>,
)
    ensures
        crate::planning::source_of(desired, current, latest, cached, backups) matches Some(source)
            ==> match desired {
            DesiredDll::Cached { release: _, sha256 } => source.sha256 == sha256,
            DesiredDll::Restore { backup_sha256 } => source.sha256 == backup_sha256,
            _ => true,
        },
    decreases cached.len() + backups.len(),
{
    match desired {
        DesiredDll::Cached { .. } => {
            if cached.len() > 0 {
                pinned_content_is_installed(desired, current, latest, cached.drop_last(), backups);
            }
        },
        DesiredDll::Restore { .. } => {
            if backups.len() > 0 {
                pinned_content_is_installed(desired, current, latest, cached, backups.drop_last());
            }
        },
        _ => {},
    }
}

/// What the button that applies the checked rows says.
pub fn apply_label(checked: usize) -> (label: String)
    ensures
        label@ == "Apply "@ + counted(checked as nat, "change"@),
{
    join_two("Apply ", &plural(checked, "change"))
}

/// Whether the checked rows can be applied, or else why not: one run goes at a
/// time, and something has to be checked.
pub fn can_apply(checked: usize, busy: bool) -> (reason: Option<&'static str>)
    ensures
        match reason {
            None => checked > 0 && !busy,
            Some(reason) => if busy {
                reason@ == "Wait for the current update to finish"@
            } else {
                checked == 0 && reason@ == "Select at least one change"@
            },
        },
{
    if busy {
        Some("Wait for the current update to finish")
    } else if checked == 0 {
        Some("Select at least one change")
    } else {
        None
    }
}

/// What the button that downloads the latest release says.
pub fn download_label(tag: &str, failed: bool) -> (label: String)
    ensures
        label@ == if failed {
            "Try again"@
        } else {
            "Download "@ + tag@
        },
{
    if failed {
        "Try again".to_owned()
    } else {
        join_two("Download ", tag)
    }
}

/// The title of a review.
pub fn review_title(intent: &ReviewIntent) -> (title: &'static str)
    ensures
        title@ == match *intent {
            ReviewIntent::QuickDlss(_) => "Review DLSS updates"@,
            ReviewIntent::AllDlls(_) => "Review DLL updates"@,
            ReviewIntent::Profiles(_) => "Review staged changes"@,
        },
{
    match intent {
        ReviewIntent::QuickDlss(_) => "Review DLSS updates",
        ReviewIntent::AllDlls(_) => "Review DLL updates",
        ReviewIntent::Profiles(_) => "Review staged changes",
    }
}

/// Whether no two DLLs of a game have the same identifier.
pub open spec fn ids_differ(dlls: Seq<DllInstallation>) -> bool {
    forall|i: int, j: int|
        0 <= i < j < dlls.len() ==> (#[trigger] dlls[i]).id@ != (#[trigger] dlls[j]).id@
}

proof fn rows_of_a_quick_update(
    game: GameRow,
    swaps: Seq<PlannedSwap>,
    release: CachedRelease,
    at: int,
)
    requires
        forall|k: int|
            0 <= k < swaps.len() ==> (dll_with_id(
                game.details@,
                (#[trigger] swaps[k]).installation@,
            ) matches Some(dll) ==> crate::kinds::is_dlss_name(dll.file_name)),
        0 <= at < update_rows(game, swaps, release).len(),
    ensures
        crate::kinds::is_dlss_name(update_rows(game, swaps, release)[at].file_name),
    decreases swaps.len(),
{
    let shorter = swaps.drop_last();
    assert forall|k: int| 0 <= k < shorter.len() implies (dll_with_id(
        game.details@,
        (#[trigger] shorter[k]).installation@,
    ) matches Some(dll) ==> crate::kinds::is_dlss_name(dll.file_name)) by {
        assert(shorter[k] == swaps[k]);
    }
    assert(swaps[swaps.len() - 1] == swaps.last());
    if at < update_rows(game, shorter, release).len() {
        rows_of_a_quick_update(game, shorter, release, at);
    }
}

/// A review of DLSS updates lists DLLs of the DLSS family only; Streamline and
/// Reflex are never in it.
pub proof fn quick_reviews_list_dlss_only(
    ids: Seq<GameId>,
    games: Seq<GameRow>,
    release: CachedRelease,
    at: int,
)
    requires
        forall|i: int| 0 <= i < games.len() ==> ids_differ((#[trigger] games[i]).details@),
        0 <= at < all_update_rows(ids, games, release, true).len(),
    ensures
        crate::kinds::is_dlss_name(all_update_rows(ids, games, release, true)[at].file_name),
        !row_is_streamline(all_update_rows(ids, games, release, true)[at]),
    decreases ids.len(),
{
    let before = all_update_rows(ids.drop_last(), games, release, true);
    if at < before.len() {
        quick_reviews_list_dlss_only(ids.drop_last(), games, release, at);
    } else {
        let game = game_with_id(games, ids.last()@)->0;
        let dlls = game.details@;
        let swaps = upgrades_of(dlls, release.dlls@, true);
        crate::lists::first_is_wanted(games, is_game(ids.last()@));
        assert forall|k: int| 0 <= k < swaps.len() implies (dll_with_id(
            dlls,
            (#[trigger] swaps[k]).installation@,
        ) matches Some(dll) ==> crate::kinds::is_dlss_name(dll.file_name)) by {
            crate::planning::one_click_swaps_are_strict_upgrades(dlls, release.dlls@, true, k);
            let (i, j) = choose|i: int, j: int|
                #![trigger dlls[i], release.dlls@[j]]
                {
                    let swap = swaps[k];
                    &&& 0 <= i < dlls.len()
                    &&& 0 <= j < release.dlls@.len()
                    &&& swap == crate::planning::swap_for(
                        dlls[i],
                        release.dlls@[j].source,
                        release.dlls@[j].sha256,
                        Comparison::Upgrade,
                    )
                    &&& crate::model::names_match(release.dlls@[j].file_name, dlls[i].file_name)
                    &&& dlls[i].metadata.version matches Some(version)
                    &&& crate::model::version_less(version, release.dlls@[j].version)
                    &&& true ==> crate::kinds::is_dlss_name(dlls[i].file_name)
                };
            let wanted = is_dll(swaps[k].installation@);
            assert forall|earlier: int| 0 <= earlier < i implies !wanted(#[trigger] dlls[earlier]) by {
                assert(dlls[earlier].id@ != dlls[i].id@);
            }
            assert(wanted(dlls[i]));
            first_is(dlls, wanted, i);
        }
        rows_of_a_quick_update(game, swaps, release, at - before.len());
    }
}

} // verus!
