//! Planning which DLLs to swap.

use crate::digest::same_hash;
use crate::kinds::{classify_path, is_dlss_dll, DllKind};
use crate::kinds::{dlss_family, is_dlss_name, name_kind, path_kind};
use crate::model::{
    compare_target, comparison, names_match, same_file_name, version_less, BackupRecord,
    CatalogDll, Comparison, DesiredDll, DllInstallation, DllInstallationId, DllVersion, FileName,
    OperationPlan, PlannedSwap, ReleaseId,
};
use crate::order::{byte_values, code_points, hash_precedes, precedes, precedes_is_irreflexive};
use crate::paths::FilePath;
use crate::profile::{entry_less, ProfileEntry, TargetProfile};
use crate::text::join_two;
use crate::traits::CoreError;
use vstd::prelude::*;

verus! {

/// The DLL of the catalog that goes by `name`. The last one wins where several
/// do.
pub open spec fn catalog_named(latest: Seq<CatalogDll>, name: FileName) -> Option<CatalogDll>
    decreases latest.len(),
{
    if latest.len() == 0 {
        None
    } else if names_match(latest.last().file_name, name) {
        Some(latest.last())
    } else {
        catalog_named(latest.drop_last(), name)
    }
}

/// The swap of an installed DLL for a DLL of the catalog.
pub open spec fn swap_for(
    current: DllInstallation,
    source: FilePath,
    source_sha256: [u8; 32],
    outcome: Comparison,
) -> PlannedSwap {
    PlannedSwap {
        game: current.game_id,
        installation: current.id,
        target_path: current.path,
        expected_sha256: current.metadata.sha256,
        source_path: source,
        source_sha256,
        comparison: outcome,
    }
}

/// The one-click upgrade of an installed DLL: to the DLL of the same name, if
/// both versions are known and that one is strictly newer.
pub open spec fn upgrade_of(current: DllInstallation, latest: Seq<CatalogDll>) -> Option<
    PlannedSwap,
> {
    match (catalog_named(latest, current.file_name), current.metadata.version) {
        (Some(target), Some(version)) => if version_less(version, target.version) {
            Some(swap_for(current, target.source, target.sha256, Comparison::Upgrade))
        } else {
            None
        },
        _ => None,
    }
}

/// The one-click upgrades of all installed DLLs, in their order; of the DLSS
/// family alone if `dlss_only`.
pub open spec fn upgrades_of(
    installed: Seq<DllInstallation>,
    latest: Seq<CatalogDll>,
    dlss_only: bool,
) -> Seq<PlannedSwap>
    decreases installed.len(),
{
    if installed.len() == 0 {
        Seq::empty()
    } else {
        let before = upgrades_of(installed.drop_last(), latest, dlss_only);
        let current = installed.last();
        if dlss_only && !is_dlss_name(current.file_name) {
            before
        } else {
            match upgrade_of(current, latest) {
                Some(swap) => before.push(swap),
                None => before,
            }
        }
    }
}

fn find_catalog<'a>(latest: &'a [CatalogDll], name: &FileName) -> (found: Option<&'a CatalogDll>)
    ensures
        match found {
            Some(dll) => catalog_named(latest@, *name) == Some(*dll),
            None => catalog_named(latest@, *name) is None,
        },
{
    let mut left: usize = latest.len();
    proof {
        assert(latest@.take(left as int) =~= latest@);
    }
    while left > 0
        invariant
            left <= latest.len(),
            catalog_named(latest@, *name) == catalog_named(latest@.take(left as int), *name),
        decreases left,
    {
        proof {
            assert(latest@.take(left as int).drop_last() =~= latest@.take(left - 1));
        }
        if same_file_name(&latest[left - 1].file_name, name) {
            return Some(&latest[left - 1]);
        }
        left -= 1;
    }
    None
}

fn plan_upgrades(
    nonce: &str,
    installed: &[DllInstallation],
    latest: &[CatalogDll],
    dlss_only: bool,
) -> (plan: OperationPlan)
    ensures
        plan.nonce@ == nonce@,
        plan.swaps@ == upgrades_of(installed@, latest@, dlss_only),
{
    let mut swaps: Vec<PlannedSwap> = Vec::new();
    let mut at: usize = 0;
    while at < installed.len()
        invariant
            at <= installed.len(),
            swaps@ == upgrades_of(installed@.take(at as int), latest@, dlss_only),
        decreases installed.len() - at,
    {
        let current = &installed[at];
        proof {
            assert(installed@.take(at + 1).drop_last() =~= installed@.take(at as int));
        }
        if !dlss_only || is_dlss_dll(&current.file_name) {
            if let Some(target) = find_catalog(latest, &current.file_name) {
                if let Some(version) = current.metadata.version {
                    if version.is_older_than(&target.version) {
                        swaps.push(PlannedSwap {
                            game: current.game_id.clone(),
                            installation: current.id.clone(),
                            target_path: current.path.clone(),
                            expected_sha256: current.metadata.sha256,
                            source_path: target.source.clone(),
                            source_sha256: target.sha256,
                            comparison: Comparison::Upgrade,
                        });
                    }
                }
            }
        }
        at += 1;
    }
    proof {
        assert(installed@.take(at as int) =~= installed@);
    }
    OperationPlan { nonce: nonce.to_owned(), swaps }
}

/// Plans the direct one-click upgrade. DLLs that are unknown, newer, identical,
/// of the same version in another build, missing from the catalog or named
/// differently are left alone.
pub fn plan_strict_upgrades(
    nonce: &str,
    installed: &[DllInstallation],
    latest: &[CatalogDll],
) -> (plan: OperationPlan)
    ensures
        plan.nonce@ == nonce@,
        plan.swaps@ == upgrades_of(installed@, latest@, false),
{
    plan_upgrades(nonce, installed, latest, false)
}

/// Plans the one-click upgrade of the DLSS family alone.
pub fn plan_dlss_only_upgrades(
    nonce: &str,
    installed: &[DllInstallation],
    latest: &[CatalogDll],
) -> (plan: OperationPlan)
    ensures
        plan.nonce@ == nonce@,
        plan.swaps@ == upgrades_of(installed@, latest@, true),
{
    plan_upgrades(nonce, installed, latest, true)
}

/// Whether a swap replaces a Streamline DLL.
pub open spec fn replaces_streamline(swap: PlannedSwap) -> bool {
    path_kind(swap.target_path@) == Some(DllKind::Streamline)
}

/// Whether any swap of a list replaces a Streamline DLL.
pub open spec fn swaps_touch_streamline(swaps: Seq<PlannedSwap>) -> bool {
    exists|i: int| 0 <= i < swaps.len() && replaces_streamline(#[trigger] swaps[i])
}

/// Whether any of the plans replaces a Streamline DLL.
pub fn plan_touches_streamline(plans: &[OperationPlan]) -> (touches: bool)
    ensures
        touches <==> exists|p: int|
            0 <= p < plans@.len() && swaps_touch_streamline((#[trigger] plans@[p]).swaps@),
{
    let mut at: usize = 0;
    while at < plans.len()
        invariant
            at <= plans.len(),
            forall|p: int| 0 <= p < at ==> !swaps_touch_streamline((#[trigger] plans@[p]).swaps@),
        decreases plans.len() - at,
    {
        let swaps = &plans[at].swaps;
        let mut inner: usize = 0;
        while inner < swaps.len()
            invariant
                inner <= swaps.len(),
                at < plans.len(),
                swaps@ == plans@[at as int].swaps@,
                forall|i: int| 0 <= i < inner ==> !replaces_streamline(#[trigger] swaps@[i]),
            decreases swaps.len() - inner,
        {
            if let Some(DllKind::Streamline) = classify_path(&swaps[inner].target_path) {
                proof {
                    assert(replaces_streamline(swaps@[inner as int]));
                    assert(swaps_touch_streamline(plans@[at as int].swaps@));
                }
                return true;
            }
            inner += 1;
        }
        at += 1;
    }
    false
}

/// Where a swap takes its content from.
pub struct SwapSource {
    pub path: FilePath,
    pub sha256: [u8; 32],
    pub version: Option<DllVersion>,
}

/// The installed DLL with the identifier `id`. The last one wins where several
/// have it.
pub open spec fn installed_as(installed: Seq<DllInstallation>, id: Seq<char>) -> Option<
    DllInstallation,
>
    decreases installed.len(),
{
    if installed.len() == 0 {
        None
    } else if installed.last().id@ == id {
        Some(installed.last())
    } else {
        installed_as(installed.drop_last(), id)
    }
}

/// Whether one DLL of the catalog ranks below another: by version, then by
/// digest.
pub open spec fn ranks_below(left: CatalogDll, right: CatalogDll) -> bool {
    ||| version_less(left.version, right.version)
    ||| left.version == right.version && precedes(
        byte_values(left.sha256@),
        byte_values(right.sha256@),
    )
}

/// The highest ranking DLL that goes by `name`. The last one wins where several
/// rank the same.
pub open spec fn best_official(latest: Seq<CatalogDll>, name: FileName) -> Option<CatalogDll>
    decreases latest.len(),
{
    if latest.len() == 0 {
        None
    } else {
        let before = best_official(latest.drop_last(), name);
        let candidate = latest.last();
        if !names_match(candidate.file_name, name) {
            before
        } else {
            match before {
                Some(best) => if ranks_below(candidate, best) {
                    before
                } else {
                    Some(candidate)
                },
                None => Some(candidate),
            }
        }
    }
}

/// Whether a cached DLL is the one that was asked for.
pub open spec fn is_requested(
    candidate: CatalogDll,
    release: Seq<char>,
    sha256: [u8; 32],
    name: FileName,
) -> bool {
    candidate.release@ == release && candidate.sha256 == sha256 && names_match(
        candidate.file_name,
        name,
    )
}

/// The first cached DLL that is the one asked for.
pub open spec fn cached_as(
    cached: Seq<CatalogDll>,
    release: Seq<char>,
    sha256: [u8; 32],
    name: FileName,
) -> Option<CatalogDll>
    decreases cached.len(),
{
    if cached.len() == 0 {
        None
    } else {
        match cached_as(cached.drop_last(), release, sha256, name) {
            Some(found) => Some(found),
            None => if is_requested(cached.last(), release, sha256, name) {
                Some(cached.last())
            } else {
                None
            },
        }
    }
}

/// The first backup of the file at `path` with the digest `sha256`.
pub open spec fn backup_as(
    backups: Seq<BackupRecord>,
    sha256: [u8; 32],
    path: Seq<char>,
) -> Option<BackupRecord>
    decreases backups.len(),
{
    if backups.len() == 0 {
        None
    } else {
        match backup_as(backups.drop_last(), sha256, path) {
            Some(found) => Some(found),
            None => if backups.last().sha256 == sha256 && backups.last().original_path@ == path {
                Some(backups.last())
            } else {
                None
            },
        }
    }
}

/// The content that a choice stands for.
pub open spec fn source_of(
    desired: DesiredDll,
    current: DllInstallation,
    latest: Seq<CatalogDll>,
    cached: Seq<CatalogDll>,
    backups: Seq<BackupRecord>,
) -> Option<SwapSource> {
    match desired {
        DesiredDll::KeepInstalled => None,
        DesiredDll::LatestOfficial => match best_official(latest, current.file_name) {
            Some(dll) => Some(
                SwapSource { path: dll.source, sha256: dll.sha256, version: Some(dll.version) },
            ),
            None => None,
        },
        DesiredDll::Cached { release, sha256 } => match cached_as(
            cached,
            release@,
            sha256,
            current.file_name,
        ) {
            Some(dll) => Some(
                SwapSource { path: dll.source, sha256: dll.sha256, version: Some(dll.version) },
            ),
            None => None,
        },
        DesiredDll::Restore { backup_sha256 } => match backup_as(
            backups,
            backup_sha256,
            current.path@,
        ) {
            Some(backup) => Some(
                SwapSource {
                    path: backup.content_path,
                    sha256: backup.sha256,
                    version: backup.version,
                },
            ),
            None => None,
        },
    }
}

/// What comes of a profile: its swaps, or the reason why it is refused.
pub enum ProfileOutcome {
    Swaps(Seq<PlannedSwap>),
    Refused(Seq<char>),
}

/// What one staged choice adds to the swaps planned so far.
pub open spec fn entry_outcome(
    entry: ProfileEntry,
    before: Seq<PlannedSwap>,
    installed: Seq<DllInstallation>,
    latest: Seq<CatalogDll>,
    cached: Seq<CatalogDll>,
    backups: Seq<BackupRecord>,
) -> ProfileOutcome {
    match installed_as(installed, entry.id@) {
        None => ProfileOutcome::Refused(
            "profile references unknown DLL installation "@ + entry.id@,
        ),
        Some(current) => if entry.desired is KeepInstalled {
            ProfileOutcome::Swaps(before)
        } else {
            match source_of(entry.desired, current, latest, cached, backups) {
                None => ProfileOutcome::Refused(
                    "desired source is unavailable for DLL installation "@ + entry.id@,
                ),
                Some(source) => {
                    let outcome = comparison(
                        current.metadata.version,
                        current.metadata.sha256,
                        source.version,
                        source.sha256,
                    );
                    if outcome == Comparison::Identical {
                        ProfileOutcome::Swaps(before)
                    } else {
                        ProfileOutcome::Swaps(
                            before.push(swap_for(current, source.path, source.sha256, outcome)),
                        )
                    }
                },
            }
        },
    }
}

/// What comes of a list of staged choices, taken in order. The first choice
/// that cannot be met refuses the whole list.
pub open spec fn profile_outcome(
    entries: Seq<ProfileEntry>,
    installed: Seq<DllInstallation>,
    latest: Seq<CatalogDll>,
    cached: Seq<CatalogDll>,
    backups: Seq<BackupRecord>,
) -> ProfileOutcome
    decreases entries.len(),
{
    if entries.len() == 0 {
        ProfileOutcome::Swaps(Seq::empty())
    } else {
        match profile_outcome(entries.drop_last(), installed, latest, cached, backups) {
            ProfileOutcome::Refused(reason) => ProfileOutcome::Refused(reason),
            ProfileOutcome::Swaps(before) => entry_outcome(
                entries.last(),
                before,
                installed,
                latest,
                cached,
                backups,
            ),
        }
    }
}

fn find_installed<'a>(installed: &'a [DllInstallation], id: &DllInstallationId) -> (found: Option<
    &'a DllInstallation,
>)
    ensures
        match found {
            Some(dll) => installed_as(installed@, id@) == Some(*dll),
            None => installed_as(installed@, id@) is None,
        },
{
    let mut left: usize = installed.len();
    proof {
        assert(installed@.take(left as int) =~= installed@);
    }
    while left > 0
        invariant
            left <= installed.len(),
            installed_as(installed@, id@) == installed_as(installed@.take(left as int), id@),
        decreases left,
    {
        proof {
            assert(installed@.take(left as int).drop_last() =~= installed@.take(left - 1));
        }
        if installed[left - 1].id.same(id) {
            return Some(&installed[left - 1]);
        }
        left -= 1;
    }
    None
}

fn is_ranked_below(left: &CatalogDll, right: &CatalogDll) -> (below: bool)
    ensures
        below == ranks_below(*left, *right),
{
    left.version.is_older_than(&right.version) || left.version == right.version && hash_precedes(
        &left.sha256,
        &right.sha256,
    )
}

/// The highest ranking DLL that goes by `name`.
pub fn find_best<'a>(latest: &'a [CatalogDll], name: &FileName) -> (found: Option<&'a CatalogDll>)
    ensures
        match found {
            Some(dll) => best_official(latest@, *name) == Some(*dll),
            None => best_official(latest@, *name) is None,
        },
{
    let mut best: Option<&'a CatalogDll> = None;
    let mut at: usize = 0;
    while at < latest.len()
        invariant
            at <= latest.len(),
            match best {
                Some(dll) => best_official(latest@.take(at as int), *name) == Some(*dll),
                None => best_official(latest@.take(at as int), *name) is None,
            },
        decreases latest.len() - at,
    {
        let candidate = &latest[at];
        proof {
            assert(latest@.take(at + 1).drop_last() =~= latest@.take(at as int));
        }
        if same_file_name(&candidate.file_name, name) {
            let keeps = match best {
                Some(kept) => is_ranked_below(candidate, kept),
                None => false,
            };
            if !keeps {
                best = Some(candidate);
            }
        }
        at += 1;
    }
    proof {
        assert(latest@.take(at as int) =~= latest@);
    }
    best
}

fn find_cached<'a>(
    cached: &'a [CatalogDll],
    release: &ReleaseId,
    sha256: &[u8; 32],
    name: &FileName,
) -> (found: Option<&'a CatalogDll>)
    ensures
        match found {
            Some(dll) => cached_as(cached@, release@, *sha256, *name) == Some(*dll),
            None => cached_as(cached@, release@, *sha256, *name) is None,
        },
{
    let mut found: Option<&'a CatalogDll> = None;
    let mut at: usize = 0;
    while at < cached.len()
        invariant
            at <= cached.len(),
            match found {
                Some(dll) => cached_as(cached@.take(at as int), release@, *sha256, *name) == Some(
                    *dll,
                ),
                None => cached_as(cached@.take(at as int), release@, *sha256, *name) is None,
            },
        decreases cached.len() - at,
    {
        let candidate = &cached[at];
        proof {
            assert(cached@.take(at + 1).drop_last() =~= cached@.take(at as int));
        }
        if found.is_none() && candidate.release.same(release) && same_hash(
            &candidate.sha256,
            sha256,
        ) && same_file_name(&candidate.file_name, name) {
            found = Some(candidate);
        }
        at += 1;
    }
    proof {
        assert(cached@.take(at as int) =~= cached@);
    }
    found
}

fn find_backup<'a>(backups: &'a [BackupRecord], sha256: &[u8; 32], path: &FilePath) -> (found:
    Option<&'a BackupRecord>)
    ensures
        match found {
            Some(backup) => backup_as(backups@, *sha256, path@) == Some(*backup),
            None => backup_as(backups@, *sha256, path@) is None,
        },
{
    let mut found: Option<&'a BackupRecord> = None;
    let mut at: usize = 0;
    while at < backups.len()
        invariant
            at <= backups.len(),
            match found {
                Some(backup) => backup_as(backups@.take(at as int), *sha256, path@) == Some(
                    *backup,
                ),
                None => backup_as(backups@.take(at as int), *sha256, path@) is None,
            },
        decreases backups.len() - at,
    {
        let candidate = &backups[at];
        proof {
            assert(backups@.take(at + 1).drop_last() =~= backups@.take(at as int));
        }
        if found.is_none() && same_hash(&candidate.sha256, sha256) && candidate.original_path.same(
            path,
        ) {
            found = Some(candidate);
        }
        at += 1;
    }
    proof {
        assert(backups@.take(at as int) =~= backups@);
    }
    found
}

fn find_source(
    desired: &DesiredDll,
    current: &DllInstallation,
    latest: &[CatalogDll],
    cached: &[CatalogDll],
    backups: &[BackupRecord],
) -> (source: Option<SwapSource>)
    ensures
        source == source_of(*desired, *current, latest@, cached@, backups@),
{
    match desired {
        DesiredDll::KeepInstalled => None,
        DesiredDll::LatestOfficial => match find_best(latest, &current.file_name) {
            Some(dll) => Some(
                SwapSource {
                    path: dll.source.clone(),
                    sha256: dll.sha256,
                    version: Some(dll.version),
                },
            ),
            None => None,
        },
        DesiredDll::Cached { release, sha256 } => match find_cached(
            cached,
            release,
            sha256,
            &current.file_name,
        ) {
            Some(dll) => Some(
                SwapSource {
                    path: dll.source.clone(),
                    sha256: dll.sha256,
                    version: Some(dll.version),
                },
            ),
            None => None,
        },
        DesiredDll::Restore { backup_sha256 } => match find_backup(
            backups,
            backup_sha256,
            &current.path,
        ) {
            Some(backup) => Some(
                SwapSource {
                    path: backup.content_path.clone(),
                    sha256: backup.sha256,
                    version: backup.version,
                },
            ),
            None => None,
        },
    }
}

/// Turns the staged choices of a profile into swaps. Unlike the one-click
/// planner this allows downgrades, other builds of the same version, and
/// restored backups.
pub fn plan_target_profile(
    nonce: &str,
    installed: &[DllInstallation],
    latest: &[CatalogDll],
    cached: &[CatalogDll],
    backups: &[BackupRecord],
    profile: &TargetProfile,
) -> (result: Result<OperationPlan, CoreError>)
    ensures
        match profile_outcome(profile.targets@, installed@, latest@, cached@, backups@) {
            ProfileOutcome::Swaps(swaps) => result matches Ok(plan) && plan.nonce@ == nonce@
                && plan.swaps@ == swaps,
            ProfileOutcome::Refused(reason) => result matches Err(CoreError::Validation(message))
                && message@ == reason,
        },
{
    let entries = &profile.targets;
    let mut swaps: Vec<PlannedSwap> = Vec::new();
    let mut at: usize = 0;
    while at < entries.len()
        invariant
            at <= entries.len(),
            entries@ == profile.targets@,
            profile_outcome(entries@.take(at as int), installed@, latest@, cached@, backups@)
                == ProfileOutcome::Swaps(swaps@),
        decreases entries.len() - at,
    {
        let entry = &entries[at];
        let ghost outcome = profile_outcome(
            entries@.take(at + 1),
            installed@,
            latest@,
            cached@,
            backups@,
        );
        proof {
            assert(entries@.take(at + 1).drop_last() =~= entries@.take(at as int));
            assert(outcome == entry_outcome(
                *entry,
                swaps@,
                installed@,
                latest@,
                cached@,
                backups@,
            ));
            if outcome is Refused {
                refusal_persists(entries@, at + 1, installed@, latest@, cached@, backups@);
            }
        }
        match find_installed(installed, &entry.id) {
            None => {
                return Err(
                    CoreError::Validation(
                        join_two("profile references unknown DLL installation ", &entry.id.0),
                    ),
                );
            },
            Some(current) => {
                let keep = match entry.desired {
                    DesiredDll::KeepInstalled => true,
                    _ => false,
                };
                if !keep {
                    match find_source(&entry.desired, current, latest, cached, backups) {
                        None => {
                            return Err(
                                CoreError::Validation(
                                    join_two(
                                        "desired source is unavailable for DLL installation ",
                                        &entry.id.0,
                                    ),
                                ),
                            );
                        },
                        Some(source) => {
                            let outcome = compare_target(
                                current.metadata.version,
                                current.metadata.sha256,
                                source.version,
                                source.sha256,
                            );
                            if outcome != Comparison::Identical {
                                swaps.push(PlannedSwap {
                                    game: current.game_id.clone(),
                                    installation: current.id.clone(),
                                    target_path: current.path.clone(),
                                    expected_sha256: current.metadata.sha256,
                                    source_path: source.path,
                                    source_sha256: source.sha256,
                                    comparison: outcome,
                                });
                            }
                        },
                    }
                }
            },
        }
        at += 1;
    }
    proof {
        assert(entries@.take(at as int) =~= entries@);
    }
    Ok(OperationPlan { nonce: nonce.to_owned(), swaps })
}

/// A list of choices whose beginning is refused is refused for the same reason.
proof fn refusal_persists(
    entries: Seq<ProfileEntry>,
    at: int,
    installed: Seq<DllInstallation>,
    latest: Seq<CatalogDll>,
    cached: Seq<CatalogDll>,
    backups: Seq<BackupRecord>,
)
    requires
        0 <= at <= entries.len(),
        profile_outcome(entries.take(at), installed, latest, cached, backups) is Refused,
    ensures
        profile_outcome(entries, installed, latest, cached, backups) == profile_outcome(
            entries.take(at),
            installed,
            latest,
            cached,
            backups,
        ),
    decreases entries.len(),
{
    if at == entries.len() {
        assert(entries.take(at) =~= entries);
    } else {
        assert(entries.drop_last().take(at) =~= entries.take(at));
        refusal_persists(entries.drop_last(), at, installed, latest, cached, backups);
    }
}

/// Every one-click swap is an upgrade of an installed DLL of known version to a
/// strictly newer DLL of the same name, and is planned against the digest that
/// the installed file had.
pub proof fn one_click_swaps_are_strict_upgrades(
    installed: Seq<DllInstallation>,
    latest: Seq<CatalogDll>,
    dlss_only: bool,
    at: int,
)
    requires
        0 <= at < upgrades_of(installed, latest, dlss_only).len(),
    ensures
        exists|i: int, j: int|
            #![trigger installed[i], latest[j]]
            {
                let swap = upgrades_of(installed, latest, dlss_only)[at];
                &&& 0 <= i < installed.len()
                &&& 0 <= j < latest.len()
                &&& swap == swap_for(
                    installed[i],
                    latest[j].source,
                    latest[j].sha256,
                    Comparison::Upgrade,
                )
                &&& names_match(latest[j].file_name, installed[i].file_name)
                &&& installed[i].metadata.version matches Some(version)
                &&& version_less(version, latest[j].version)
                &&& dlss_only ==> is_dlss_name(installed[i].file_name)
            },
    decreases installed.len(),
{
    let before = upgrades_of(installed.drop_last(), latest, dlss_only);
    if at < before.len() {
        one_click_swaps_are_strict_upgrades(installed.drop_last(), latest, dlss_only, at);
        let (i, j) = choose|i: int, j: int|
            #![trigger installed.drop_last()[i], latest[j]]
            {
                let swap = before[at];
                let shorter = installed.drop_last();
                &&& 0 <= i < shorter.len()
                &&& 0 <= j < latest.len()
                &&& swap == swap_for(
                    shorter[i],
                    latest[j].source,
                    latest[j].sha256,
                    Comparison::Upgrade,
                )
                &&& names_match(latest[j].file_name, shorter[i].file_name)
                &&& shorter[i].metadata.version matches Some(version)
                &&& version_less(version, latest[j].version)
                &&& dlss_only ==> is_dlss_name(shorter[i].file_name)
            };
        assert(installed[i] == installed.drop_last()[i]);
        assert(latest[j] == latest[j]);
    } else {
        let last = installed.len() - 1;
        assert(installed[last] == installed.last());
        let j = catalog_index(latest, installed.last().file_name);
        assert(latest[j] == latest[j]);
    }
}

/// The position at which [`catalog_named`] finds its DLL.
proof fn catalog_index(latest: Seq<CatalogDll>, name: FileName) -> (at: int)
    requires
        catalog_named(latest, name) is Some,
    ensures
        0 <= at < latest.len(),
        catalog_named(latest, name) == Some(latest[at]),
        names_match(latest[at].file_name, name),
    decreases latest.len(),
{
    if names_match(latest.last().file_name, name) {
        latest.len() - 1
    } else {
        catalog_index(latest.drop_last(), name)
    }
}

/// What the planner for the DLSS family plans, the planner for all DLLs plans
/// too.
pub proof fn dlss_only_is_a_part_of_strict(
    installed: Seq<DllInstallation>,
    latest: Seq<CatalogDll>,
    at: int,
)
    requires
        0 <= at < upgrades_of(installed, latest, true).len(),
    ensures
        upgrades_of(installed, latest, false).contains(upgrades_of(installed, latest, true)[at]),
    decreases installed.len(),
{
    let shorter = installed.drop_last();
    let part = upgrades_of(shorter, latest, true);
    let whole = upgrades_of(shorter, latest, false);
    let all = upgrades_of(installed, latest, false);
    if at < part.len() {
        dlss_only_is_a_part_of_strict(shorter, latest, at);
        let i = choose|i: int| 0 <= i < whole.len() && whole[i] == part[at];
        assert(all[i] == part[at]);
    } else {
        assert(all.last() == upgrades_of(installed, latest, true)[at]);
    }
}

/// Whether each installed DLL is filed under the name that its path ends in.
pub open spec fn names_agree_with_paths(installed: Seq<DllInstallation>) -> bool {
    forall|i: int|
        0 <= i < installed.len() ==> name_kind((#[trigger] installed[i]).file_name) == path_kind(
            installed[i].path@,
        )
}

/// The planner for the DLSS family never touches Streamline or Reflex.
pub proof fn dlss_only_leaves_other_families_alone(
    installed: Seq<DllInstallation>,
    latest: Seq<CatalogDll>,
    at: int,
)
    requires
        names_agree_with_paths(installed),
        0 <= at < upgrades_of(installed, latest, true).len(),
    ensures
        path_kind(upgrades_of(installed, latest, true)[at].target_path@) matches Some(kind)
            && dlss_family(kind),
        !replaces_streamline(upgrades_of(installed, latest, true)[at]),
{
    one_click_swaps_are_strict_upgrades(installed, latest, true, at);
}

/// A profile never plans a swap that would change nothing, and plans every swap
/// against the digest that the installed file had.
pub proof fn profile_swaps_change_content(
    entries: Seq<ProfileEntry>,
    installed: Seq<DllInstallation>,
    latest: Seq<CatalogDll>,
    cached: Seq<CatalogDll>,
    backups: Seq<BackupRecord>,
)
    ensures
        profile_outcome(entries, installed, latest, cached, backups) matches ProfileOutcome::Swaps(
            swaps,
        ) ==> forall|i: int|
            0 <= i < swaps.len() ==> {
                let swap = #[trigger] swaps[i];
                &&& swap.comparison != Comparison::Identical
                &&& swap.source_sha256 != swap.expected_sha256
                &&& installed_as(installed, swap.installation@) matches Some(current)
                &&& swap.target_path == current.path
                &&& swap.expected_sha256 == current.metadata.sha256
            },
    decreases entries.len(),
{
    if entries.len() > 0 {
        profile_swaps_change_content(entries.drop_last(), installed, latest, cached, backups);
        if profile_outcome(entries.drop_last(), installed, latest, cached, backups) is Swaps {
            if let Some(current) = installed_as(installed, entries.last().id@) {
                installed_as_has_id(installed, entries.last().id@);
            }
        }
    }
}

proof fn installed_as_has_id(installed: Seq<DllInstallation>, id: Seq<char>)
    ensures
        installed_as(installed, id) matches Some(current) ==> current.id@ == id,
    decreases installed.len(),
{
    if installed.len() > 0 && installed.last().id@ != id {
        installed_as_has_id(installed.drop_last(), id);
    }
}

/// The swap that a staged choice asks for, if it asks for one.
pub open spec fn entry_swap(
    entry: ProfileEntry,
    installed: Seq<DllInstallation>,
    latest: Seq<CatalogDll>,
    cached: Seq<CatalogDll>,
    backups: Seq<BackupRecord>,
) -> Option<PlannedSwap> {
    match entry_outcome(entry, Seq::empty(), installed, latest, cached, backups) {
        ProfileOutcome::Swaps(swaps) => if swaps.len() > 0 {
            Some(swaps[0])
        } else {
            None
        },
        ProfileOutcome::Refused(_) => None,
    }
}

/// Whether `after` are the DLLs of `installed` once `swaps` were carried out: a
/// DLL that was swapped has the content of the source, and the others are what
/// they were.
pub open spec fn are_applied(
    installed: Seq<DllInstallation>,
    swaps: Seq<PlannedSwap>,
    after: Seq<DllInstallation>,
) -> bool {
    forall|id: Seq<char>| #[trigger]
        installed_as(installed, id) matches Some(current) ==> {
            &&& installed_as(after, id) matches Some(fresh)
            &&& fresh.path@ == current.path@
            &&& fresh.file_name == current.file_name
            &&& forall|i: int|
                0 <= i < swaps.len() && (#[trigger] swaps[i]).installation@ == id
                    ==> fresh.metadata.sha256 == swaps[i].source_sha256
            &&& (forall|i: int| 0 <= i < swaps.len() ==> (#[trigger] swaps[i]).installation@ != id)
                ==> fresh.metadata == current.metadata
        }
}

/// The swaps of a profile that is not refused are those that its choices ask
/// for, and no choice lacks what it asks for.
proof fn swaps_are_asked_for(
    entries: Seq<ProfileEntry>,
    installed: Seq<DllInstallation>,
    latest: Seq<CatalogDll>,
    cached: Seq<CatalogDll>,
    backups: Seq<BackupRecord>,
)
    requires
        profile_outcome(entries, installed, latest, cached, backups) is Swaps,
    ensures
        ({
            let swaps = profile_outcome(entries, installed, latest, cached, backups)->Swaps_0;
            &&& forall|j: int|
                0 <= j < entries.len() ==> entry_outcome(
                    #[trigger] entries[j],
                    Seq::empty(),
                    installed,
                    latest,
                    cached,
                    backups,
                ) is Swaps
            &&& forall|j: int|
                0 <= j < entries.len() ==> (entry_swap(
                    #[trigger] entries[j],
                    installed,
                    latest,
                    cached,
                    backups,
                ) matches Some(swap) ==> swap.installation@ == entries[j].id@ && swaps.contains(
                    swap,
                ))
            &&& forall|k: int|
                0 <= k < swaps.len() ==> exists|j: int|
                    0 <= j < entries.len() && entry_swap(
                        #[trigger] entries[j],
                        installed,
                        latest,
                        cached,
                        backups,
                    ) == Some(#[trigger] swaps[k])
        }),
    decreases entries.len(),
{
    if entries.len() > 0 {
        let shorter = entries.drop_last();
        let last = entries.last();
        swaps_are_asked_for(shorter, installed, latest, cached, backups);
        installed_as_has_id(installed, last.id@);
        let before = profile_outcome(shorter, installed, latest, cached, backups)->Swaps_0;
        let swaps = profile_outcome(entries, installed, latest, cached, backups)->Swaps_0;
        assert(swaps =~= match entry_swap(last, installed, latest, cached, backups) {
            Some(swap) => before.push(swap),
            None => before,
        });
        assert forall|j: int| 0 <= j < entries.len() implies (entry_swap(
            #[trigger] entries[j],
            installed,
            latest,
            cached,
            backups,
        ) matches Some(swap) ==> swap.installation@ == entries[j].id@ && swaps.contains(swap)) by {
            if let Some(swap) = entry_swap(entries[j], installed, latest, cached, backups) {
                if j < shorter.len() {
                    assert(shorter[j] == entries[j]);
                    let k = choose|k: int| 0 <= k < before.len() && before[k] == swap;
                    assert(swaps[k] == swap);
                } else {
                    assert(swaps.last() == swap);
                }
            }
        }
        assert forall|k: int| 0 <= k < swaps.len() implies exists|j: int|
            0 <= j < entries.len() && entry_swap(
                #[trigger] entries[j],
                installed,
                latest,
                cached,
                backups,
            ) == Some(#[trigger] swaps[k]) by {
            if k < before.len() {
                let j = choose|j: int|
                    0 <= j < shorter.len() && entry_swap(
                        #[trigger] shorter[j],
                        installed,
                        latest,
                        cached,
                        backups,
                    ) == Some(before[k]);
                assert(entries[j] == shorter[j]);
            } else {
                assert(entries[entries.len() - 1] == last);
            }
        }
        assert forall|j: int| 0 <= j < entries.len() implies entry_outcome(
            #[trigger] entries[j],
            Seq::empty(),
            installed,
            latest,
            cached,
            backups,
        ) is Swaps by {
            if j < shorter.len() {
                assert(shorter[j] == entries[j]);
            }
        }
    }
}

/// A choice asks for nothing where its swap, and no other of the same DLL, was
/// carried out.
proof fn an_applied_choice_asks_for_nothing(
    entry: ProfileEntry,
    installed: Seq<DllInstallation>,
    latest: Seq<CatalogDll>,
    cached: Seq<CatalogDll>,
    backups: Seq<BackupRecord>,
    swaps: Seq<PlannedSwap>,
    after: Seq<DllInstallation>,
)
    requires
        are_applied(installed, swaps, after),
        entry_outcome(entry, Seq::empty(), installed, latest, cached, backups) is Swaps,
        entry_swap(entry, installed, latest, cached, backups) matches Some(swap)
            ==> swap.installation@ == entry.id@ && swaps.contains(swap),
        forall|k: int|
            0 <= k < swaps.len() && (#[trigger] swaps[k]).installation@ == entry.id@
                ==> entry_swap(entry, installed, latest, cached, backups) == Some(swaps[k]),
    ensures
        entry_outcome(entry, Seq::empty(), after, latest, cached, backups)
            == ProfileOutcome::Swaps(Seq::empty()),
{
    let id = entry.id@;
    let current = installed_as(installed, id)->0;
    let fresh = installed_as(after, id)->0;
    assert(installed_as(installed, id) is Some);
    assert(source_of(entry.desired, fresh, latest, cached, backups) == source_of(
        entry.desired,
        current,
        latest,
        cached,
        backups,
    ));
    match entry_swap(entry, installed, latest, cached, backups) {
        Some(swap) => {
            let k = choose|k: int| 0 <= k < swaps.len() && swaps[k] == swap;
            assert(swaps[k].installation@ == id);
            assert(fresh.metadata.sha256 == swap.source_sha256);
        },
        None => {
            assert(fresh.metadata == current.metadata);
        },
    }
}

/// A profile that was applied asks for nothing more: planned again on what its
/// swaps left, it is not refused and has no swaps.
pub proof fn an_applied_profile_asks_for_nothing(
    profile: TargetProfile,
    installed: Seq<DllInstallation>,
    latest: Seq<CatalogDll>,
    cached: Seq<CatalogDll>,
    backups: Seq<BackupRecord>,
    swaps: Seq<PlannedSwap>,
    after: Seq<DllInstallation>,
)
    requires
        profile.well_formed(),
        profile_outcome(profile.targets@, installed, latest, cached, backups)
            == ProfileOutcome::Swaps(swaps),
        are_applied(installed, swaps, after),
    ensures
        profile_outcome(profile.targets@, after, latest, cached, backups)
            == ProfileOutcome::Swaps(Seq::empty()),
{
    let entries = profile.targets@;
    swaps_are_asked_for(entries, installed, latest, cached, backups);
    assert forall|j: int| 0 <= j < entries.len() implies entry_outcome(
        #[trigger] entries[j],
        Seq::empty(),
        after,
        latest,
        cached,
        backups,
    ) == ProfileOutcome::Swaps(Seq::empty()) by {
        let entry = entries[j];
        assert forall|k: int| 0 <= k < swaps.len() && (#[trigger] swaps[k]).installation@
            == entry.id@ implies entry_swap(entry, installed, latest, cached, backups) == Some(
            swaps[k],
        ) by {
            let i = choose|i: int|
                0 <= i < entries.len() && entry_swap(
                    #[trigger] entries[i],
                    installed,
                    latest,
                    cached,
                    backups,
                ) == Some(swaps[k]);
            assert(entries[i].id@ == entry.id@);
            precedes_is_irreflexive(code_points(entry.id@));
            if i < j {
                assert(entry_less(entries[i], entries[j]));
            } else if j < i {
                assert(entry_less(entries[j], entries[i]));
            }
        }
        an_applied_choice_asks_for_nothing(
            entry,
            installed,
            latest,
            cached,
            backups,
            swaps,
            after,
        );
    }
    nothing_is_asked_for(entries, after, latest, cached, backups);
}

proof fn nothing_is_asked_for(
    entries: Seq<ProfileEntry>,
    installed: Seq<DllInstallation>,
    latest: Seq<CatalogDll>,
    cached: Seq<CatalogDll>,
    backups: Seq<BackupRecord>,
)
    requires
        forall|j: int|
            0 <= j < entries.len() ==> entry_outcome(
                #[trigger] entries[j],
                Seq::empty(),
                installed,
                latest,
                cached,
                backups,
            ) == ProfileOutcome::Swaps(Seq::empty()),
    ensures
        profile_outcome(entries, installed, latest, cached, backups) == ProfileOutcome::Swaps(
            Seq::empty(),
        ),
    decreases entries.len(),
{
    if entries.len() > 0 {
        let shorter = entries.drop_last();
        assert forall|j: int| 0 <= j < shorter.len() implies entry_outcome(
            #[trigger] shorter[j],
            Seq::empty(),
            installed,
            latest,
            cached,
            backups,
        ) == ProfileOutcome::Swaps(Seq::empty()) by {
            assert(shorter[j] == entries[j]);
        }
        nothing_is_asked_for(shorter, installed, latest, cached, backups);
        assert(entries[entries.len() - 1] == entries.last());
    }
}

} // verus!
