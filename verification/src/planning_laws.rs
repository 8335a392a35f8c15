//! What holds of the plans as a whole: which installed DLLs they touch, and
//! where each swap takes its content from.

use crate::kinds::is_dlss_name;
use crate::lists::{picks, picks_grow, picks_nothing};
use crate::model::{
    comparison, names_match, version_less, BackupRecord, CatalogDll, Comparison, DesiredDll,
    DllInstallation, FileName, PlannedSwap,
};
use crate::order::{
    byte_values, precedes, precedes_is_irreflexive, precedes_is_total, precedes_is_transitive,
};
use crate::planning::{
    backup_as, best_official, cached_as, catalog_named, entry_outcome, installed_as,
    profile_outcome, upgrades_of, ProfileOutcome,
};
use crate::profile::ProfileEntry;
use vstd::prelude::*;

verus! {

/// Of the installed DLLs with an identifier the last one counts.
pub proof fn the_last_installation_counts(installed: Seq<DllInstallation>, id: Seq<char>) -> (at:
    int)
    ensures
        installed_as(installed, id) is Some ==> 0 <= at < installed.len() && installed[at].id@ == id
            && installed_as(installed, id) == Some(installed[at]) && (forall|i: int|
            at < i < installed.len() ==> (#[trigger] installed[i]).id@ != id),
        installed_as(installed, id) is None ==> forall|i: int|
            0 <= i < installed.len() ==> (#[trigger] installed[i]).id@ != id,
    decreases installed.len(),
{
    if installed.len() == 0 {
        0
    } else if installed.last().id@ == id {
        installed.len() - 1
    } else {
        let shorter = installed.drop_last();
        let at = the_last_installation_counts(shorter, id);
        assert forall|i: int| 0 <= i < installed.len() && (installed_as(installed, id) is None || i
            > at) implies (#[trigger] installed[i]).id@ != id by {
            if i < shorter.len() {
                assert(shorter[i] == installed[i]);
            }
        }
        at
    }
}

/// Of the DLLs of the catalog with a name the last one counts.
pub proof fn the_last_of_a_name_counts(latest: Seq<CatalogDll>, name: FileName) -> (at: int)
    ensures
        catalog_named(latest, name) is Some ==> 0 <= at < latest.len() && names_match(
            latest[at].file_name,
            name,
        ) && catalog_named(latest, name) == Some(latest[at]) && (forall|i: int|
            at < i < latest.len() ==> !names_match((#[trigger] latest[i]).file_name, name)),
        catalog_named(latest, name) is None ==> forall|i: int|
            0 <= i < latest.len() ==> !names_match((#[trigger] latest[i]).file_name, name),
    decreases latest.len(),
{
    if latest.len() == 0 {
        0
    } else if names_match(latest.last().file_name, name) {
        latest.len() - 1
    } else {
        let shorter = latest.drop_last();
        let at = the_last_of_a_name_counts(shorter, name);
        assert forall|i: int| 0 <= i < latest.len() && (catalog_named(latest, name) is None || i
            > at) implies !names_match((#[trigger] latest[i]).file_name, name) by {
            if i < shorter.len() {
                assert(shorter[i] == latest[i]);
            }
        }
        at
    }
}

/// Whether `better` is a newer DLL than `other`, or one of the same version
/// with the greater digest.
pub open spec fn outranks(better: CatalogDll, other: CatalogDll) -> bool {
    ||| version_less(other.version, better.version)
    ||| better.version == other.version && precedes(
        byte_values(other.sha256@),
        byte_values(better.sha256@),
    )
}

proof fn ranks_are_in_order(one: CatalogDll, two: CatalogDll, three: CatalogDll)
    ensures
        !outranks(one, one),
        outranks(one, two) && outranks(two, three) ==> outranks(one, three),
        outranks(one, two) ==> !outranks(two, one),
        outranks(one, two) || outranks(two, one) || (one.version == two.version && byte_values(
            one.sha256@,
        ) == byte_values(two.sha256@)),
{
    let first = byte_values(one.sha256@);
    let second = byte_values(two.sha256@);
    let third = byte_values(three.sha256@);
    precedes_is_irreflexive(first);
    precedes_is_total(first, second);
    if precedes(second, first) && precedes(third, second) {
        precedes_is_transitive(third, second, first);
    }
    if precedes(second, first) && precedes(first, second) {
        precedes_is_transitive(first, second, first);
    }
}

/// The latest official DLL of a name is one of that name that no other of that
/// name outranks, and the last of those. There is none only where no DLL has
/// the name.
pub proof fn the_best_official_is_the_newest(latest: Seq<CatalogDll>, name: FileName) -> (at: int)
    ensures
        best_official(latest, name) is Some ==> 0 <= at < latest.len() && names_match(
            latest[at].file_name,
            name,
        ) && best_official(latest, name) == Some(latest[at]),
        best_official(latest, name) is Some ==> forall|i: int|
            0 <= i < latest.len() && names_match((#[trigger] latest[i]).file_name, name)
                ==> !version_less(latest[at].version, latest[i].version) && !outranks(
                latest[i],
                latest[at],
            ),
        best_official(latest, name) is Some ==> forall|i: int|
            at < i < latest.len() && names_match((#[trigger] latest[i]).file_name, name)
                ==> outranks(latest[at], latest[i]),
        best_official(latest, name) is None ==> forall|i: int|
            0 <= i < latest.len() ==> !names_match((#[trigger] latest[i]).file_name, name),
    decreases latest.len(),
{
    if latest.len() == 0 {
        0
    } else {
        let shorter = latest.drop_last();
        let last = latest.len() - 1;
        let before = the_best_official_is_the_newest(shorter, name);
        let candidate = latest[last];
        let takes = names_match(candidate.file_name, name) && (best_official(shorter, name) is None
            || !outranks(shorter[before], candidate));
        let at = if takes {
            last
        } else {
            before
        };
        assert forall|i: int| 0 <= i < latest.len() && names_match(
            (#[trigger] latest[i]).file_name,
            name,
        ) implies best_official(latest, name) is Some && !version_less(
            latest[at].version,
            latest[i].version,
        ) && !outranks(latest[i], latest[at]) && (i > at ==> outranks(latest[at], latest[i])) by {
            ranks_are_in_order(candidate, candidate, candidate);
            if i < last {
                assert(shorter[i] == latest[i]);
                ranks_are_in_order(latest[i], candidate, shorter[before]);
                ranks_are_in_order(candidate, shorter[before], latest[i]);
                ranks_are_in_order(shorter[before], latest[i], candidate);
                ranks_are_in_order(shorter[before], candidate, latest[i]);
            } else if !takes {
                ranks_are_in_order(candidate, shorter[before], candidate);
                ranks_are_in_order(shorter[before], candidate, candidate);
            }
        }
        at
    }
}

/// Of the cached DLLs with a release, a digest and a name the first one counts.
pub proof fn the_first_cached_dll_counts(
    cached: Seq<CatalogDll>,
    release: Seq<char>,
    sha256: [u8; 32],
    name: FileName,
) -> (at: int)
    ensures
        cached_as(cached, release, sha256, name) is Some ==> 0 <= at < cached.len()
            && cached[at].release@ == release && cached[at].sha256 == sha256 && names_match(
            cached[at].file_name,
            name,
        ) && cached_as(cached, release, sha256, name) == Some(cached[at]) && (forall|i: int|
            0 <= i < at ==> !((#[trigger] cached[i]).release@ == release && cached[i].sha256
                == sha256 && names_match(cached[i].file_name, name))),
        cached_as(cached, release, sha256, name) is None ==> forall|i: int|
            0 <= i < cached.len() ==> !((#[trigger] cached[i]).release@ == release
                && cached[i].sha256 == sha256 && names_match(cached[i].file_name, name)),
    decreases cached.len(),
{
    if cached.len() == 0 {
        0
    } else {
        let shorter = cached.drop_last();
        let before = the_first_cached_dll_counts(shorter, release, sha256, name);
        assert forall|i: int| 0 <= i < shorter.len() implies shorter[i] == #[trigger] cached[i] by {
        }
        if cached_as(shorter, release, sha256, name) is Some {
            before
        } else {
            cached.len() - 1
        }
    }
}

/// Of the backups of a file with a digest the first one counts.
pub proof fn the_first_backup_counts(
    backups: Seq<BackupRecord>,
    sha256: [u8; 32],
    path: Seq<char>,
) -> (at: int)
    ensures
        backup_as(backups, sha256, path) is Some ==> 0 <= at < backups.len() && backups[at].sha256
            == sha256 && backups[at].original_path@ == path && backup_as(backups, sha256, path)
            == Some(backups[at]) && (forall|i: int|
            0 <= i < at ==> !((#[trigger] backups[i]).sha256 == sha256 && backups[i].original_path@
                == path)),
        backup_as(backups, sha256, path) is None ==> forall|i: int|
            0 <= i < backups.len() ==> !((#[trigger] backups[i]).sha256 == sha256
                && backups[i].original_path@ == path),
    decreases backups.len(),
{
    if backups.len() == 0 {
        0
    } else {
        let shorter = backups.drop_last();
        let before = the_first_backup_counts(shorter, sha256, path);
        assert forall|i: int| 0 <= i < shorter.len() implies shorter[i]
            == #[trigger] backups[i] by {
        }
        if backup_as(shorter, sha256, path) is Some {
            before
        } else {
            backups.len() - 1
        }
    }
}

/// Whether there is content of the kind that a choice asks for in place of
/// `current`: an official DLL of its name, the DLL of its name with the digest
/// from the release, or a backup of its file with the digest.
pub open spec fn is_on_offer(
    desired: DesiredDll,
    current: DllInstallation,
    latest: Seq<CatalogDll>,
    cached: Seq<CatalogDll>,
    backups: Seq<BackupRecord>,
) -> bool {
    match desired {
        DesiredDll::KeepInstalled => true,
        DesiredDll::LatestOfficial => exists|d: int|
            0 <= d < latest.len() && names_match(
                (#[trigger] latest[d]).file_name,
                current.file_name,
            ),
        DesiredDll::Cached { release, sha256 } => exists|d: int|
            0 <= d < cached.len() && (#[trigger] cached[d]).release@ == release@
                && cached[d].sha256 == sha256 && names_match(
                cached[d].file_name,
                current.file_name,
            ),
        DesiredDll::Restore { backup_sha256 } => exists|b: int|
            0 <= b < backups.len() && (#[trigger] backups[b]).sha256 == backup_sha256
                && backups[b].original_path@ == current.path@,
    }
}

/// Whether `swap` brings the content that a choice asks for into the file of
/// `current`: the newest official DLL of its name, the cached DLL that was
/// named, or the stored copy of the backup that was named.
pub open spec fn brings_what_was_chosen(
    desired: DesiredDll,
    current: DllInstallation,
    latest: Seq<CatalogDll>,
    cached: Seq<CatalogDll>,
    backups: Seq<BackupRecord>,
    swap: PlannedSwap,
) -> bool {
    &&& swap.game == current.game_id
    &&& swap.installation == current.id
    &&& swap.target_path == current.path
    &&& swap.expected_sha256 == current.metadata.sha256
    &&& swap.source_sha256 != current.metadata.sha256
    &&& match desired {
        DesiredDll::KeepInstalled => false,
        DesiredDll::LatestOfficial => exists|d: int|
            0 <= d < latest.len() && names_match(
                (#[trigger] latest[d]).file_name,
                current.file_name,
            ) && swap.source_path == latest[d].source && swap.source_sha256 == latest[d].sha256
                && swap.comparison == comparison(
                current.metadata.version,
                current.metadata.sha256,
                Some(latest[d].version),
                latest[d].sha256,
            ) && (forall|i: int|
                0 <= i < latest.len() && names_match(
                    (#[trigger] latest[i]).file_name,
                    current.file_name,
                ) ==> !version_less(latest[d].version, latest[i].version)),
        DesiredDll::Cached { release, sha256 } => exists|d: int|
            0 <= d < cached.len() && (#[trigger] cached[d]).release@ == release@
                && cached[d].sha256 == sha256 && names_match(
                cached[d].file_name,
                current.file_name,
            ) && swap.source_path == cached[d].source && swap.source_sha256 == cached[d].sha256
                && swap.comparison == comparison(
                current.metadata.version,
                current.metadata.sha256,
                Some(cached[d].version),
                cached[d].sha256,
            ),
        DesiredDll::Restore { backup_sha256 } => exists|b: int|
            0 <= b < backups.len() && (#[trigger] backups[b]).sha256 == backup_sha256
                && backups[b].original_path@ == swap.target_path@ && swap.source_path
                == backups[b].content_path && swap.source_sha256 == backups[b].sha256
                && swap.comparison == comparison(
                current.metadata.version,
                current.metadata.sha256,
                backups[b].version,
                backups[b].sha256,
            ),
    }
}

/// Whether a choice is met by what is installed: it keeps that, or asks for
/// content with the same digest.
pub open spec fn is_met_already(
    desired: DesiredDll,
    current: DllInstallation,
    latest: Seq<CatalogDll>,
) -> bool {
    match desired {
        DesiredDll::KeepInstalled => true,
        DesiredDll::LatestOfficial => exists|d: int|
            0 <= d < latest.len() && names_match(
                (#[trigger] latest[d]).file_name,
                current.file_name,
            ) && latest[d].sha256 == current.metadata.sha256 && (forall|i: int|
                0 <= i < latest.len() && names_match(
                    (#[trigger] latest[i]).file_name,
                    current.file_name,
                ) ==> !version_less(latest[d].version, latest[i].version)),
        DesiredDll::Cached { sha256, .. } => sha256 == current.metadata.sha256,
        DesiredDll::Restore { backup_sha256 } => backup_sha256 == current.metadata.sha256,
    }
}

/// One choice is refused where its DLL is not installed or nothing of the kind
/// that it asks for is on offer. Otherwise it adds the swap that brings that
/// content, or nothing where the content is there already.
pub proof fn a_choice_brings_what_it_asks_for(
    entry: ProfileEntry,
    before: Seq<PlannedSwap>,
    installed: Seq<DllInstallation>,
    latest: Seq<CatalogDll>,
    cached: Seq<CatalogDll>,
    backups: Seq<BackupRecord>,
) -> (at: int)
    ensures
        (forall|i: int| 0 <= i < installed.len() ==> (#[trigger] installed[i]).id@ != entry.id@)
            ==> entry_outcome(entry, before, installed, latest, cached, backups)
            == ProfileOutcome::Refused(
            "profile references unknown DLL installation "@ + entry.id@,
        ),
        !(forall|i: int| 0 <= i < installed.len() ==> (#[trigger] installed[i]).id@ != entry.id@)
            ==> {
            &&& 0 <= at < installed.len()
            &&& installed[at].id@ == entry.id@
            &&& forall|i: int| at < i < installed.len() ==> (#[trigger] installed[i]).id@ != entry.id@
            &&& !is_on_offer(entry.desired, installed[at], latest, cached, backups)
                ==> entry_outcome(entry, before, installed, latest, cached, backups)
                == ProfileOutcome::Refused(
                "desired source is unavailable for DLL installation "@ + entry.id@,
            )
            &&& is_on_offer(entry.desired, installed[at], latest, cached, backups) ==> {
                &&& entry_outcome(
                    entry,
                    before,
                    installed,
                    latest,
                    cached,
                    backups,
                ) matches ProfileOutcome::Swaps(swaps)
                &&& swaps == before && is_met_already(entry.desired, installed[at], latest) || (
                swaps.len() == before.len() + 1 && swaps.drop_last() == before
                    && brings_what_was_chosen(
                    entry.desired,
                    installed[at],
                    latest,
                    cached,
                    backups,
                    swaps.last(),
                ))
            }
        },
{
    let at = the_last_installation_counts(installed, entry.id@);
    if installed_as(installed, entry.id@) is Some {
        let current = installed[at];
        let outcome = entry_outcome(entry, before, installed, latest, cached, backups);
        if let ProfileOutcome::Swaps(swaps) = outcome {
            if swaps.len() > before.len() {
                assert(swaps.drop_last() =~= before);
            }
        }
        match entry.desired {
            DesiredDll::KeepInstalled => {},
            DesiredDll::LatestOfficial => {
                let d = the_best_official_is_the_newest(latest, current.file_name);
                if best_official(latest, current.file_name) is Some {
                    assert(names_match(latest[d].file_name, current.file_name));
                }
            },
            DesiredDll::Cached { release, sha256 } => {
                let d = the_first_cached_dll_counts(cached, release@, sha256, current.file_name);
                if cached_as(cached, release@, sha256, current.file_name) is Some {
                    assert(cached[d].release@ == release@);
                }
            },
            DesiredDll::Restore { backup_sha256 } => {
                let b = the_first_backup_counts(backups, backup_sha256, current.path@);
                if backup_as(backups, backup_sha256, current.path@) is Some {
                    assert(backups[b].sha256 == backup_sha256);
                }
            },
        }
    }
    at
}

/// Whether a choice can be met: its DLL is installed, and there is content of
/// the kind that it asks for.
#[verifier::opaque]
pub open spec fn can_be_met(
    entry: ProfileEntry,
    installed: Seq<DllInstallation>,
    latest: Seq<CatalogDll>,
    cached: Seq<CatalogDll>,
    backups: Seq<BackupRecord>,
) -> bool {
    exists|i: int|
        0 <= i < installed.len() && (#[trigger] installed[i]).id@ == entry.id@ && (forall|j: int|
            i < j < installed.len() ==> (#[trigger] installed[j]).id@ != entry.id@) && is_on_offer(
            entry.desired,
            installed[i],
            latest,
            cached,
            backups,
        )
}

/// Whether `swap` is what a choice asks for.
#[verifier::opaque]
pub open spec fn answers(
    entry: ProfileEntry,
    installed: Seq<DllInstallation>,
    latest: Seq<CatalogDll>,
    cached: Seq<CatalogDll>,
    backups: Seq<BackupRecord>,
    swap: PlannedSwap,
) -> bool {
    exists|i: int|
        0 <= i < installed.len() && (#[trigger] installed[i]).id@ == entry.id@ && (forall|j: int|
            i < j < installed.len() ==> (#[trigger] installed[j]).id@ != entry.id@)
            && brings_what_was_chosen(
            entry.desired,
            installed[i],
            latest,
            cached,
            backups,
            swap,
        )
}

/// Whether a choice needs no swap.
#[verifier::opaque]
pub open spec fn needs_nothing(
    entry: ProfileEntry,
    installed: Seq<DllInstallation>,
    latest: Seq<CatalogDll>,
) -> bool {
    exists|i: int|
        0 <= i < installed.len() && (#[trigger] installed[i]).id@ == entry.id@ && (forall|j: int|
            i < j < installed.len() ==> (#[trigger] installed[j]).id@ != entry.id@)
            && is_met_already(entry.desired, installed[i], latest)
}

/// What one choice comes to, told by whether it can be met.
proof fn a_choice_is_answered(
    entry: ProfileEntry,
    before: Seq<PlannedSwap>,
    installed: Seq<DllInstallation>,
    latest: Seq<CatalogDll>,
    cached: Seq<CatalogDll>,
    backups: Seq<BackupRecord>,
)
    ensures
        entry_outcome(entry, before, installed, latest, cached, backups) is Swaps <==> can_be_met(
            entry,
            installed,
            latest,
            cached,
            backups,
        ),
        entry_outcome(
            entry,
            before,
            installed,
            latest,
            cached,
            backups,
        ) matches ProfileOutcome::Swaps(swaps) ==> (swaps == before && needs_nothing(
            entry,
            installed,
            latest,
        ) || (swaps.len() == before.len() + 1 && swaps.drop_last() == before && answers(
            entry,
            installed,
            latest,
            cached,
            backups,
            swaps.last(),
        ))),
{
    reveal(can_be_met);
    reveal(answers);
    reveal(needs_nothing);
    let at = a_choice_brings_what_it_asks_for(entry, before, installed, latest, cached, backups);
    if can_be_met(entry, installed, latest, cached, backups) {
        let i = choose|i: int|
            0 <= i < installed.len() && (#[trigger] installed[i]).id@ == entry.id@ && (forall|
                j: int,
            |
                i < j < installed.len() ==> (#[trigger] installed[j]).id@ != entry.id@)
                && is_on_offer(entry.desired, installed[i], latest, cached, backups);
        assert(installed[i].id@ == entry.id@);
        assert(i == at);
    }
    if 0 <= at < installed.len() {
        assert(installed[at].id@ == installed[at].id@);
    }
}

/// A profile is planned exactly where each of its choices can be met.
pub proof fn a_profile_is_refused_where_a_choice_cannot_be_met(
    entries: Seq<ProfileEntry>,
    installed: Seq<DllInstallation>,
    latest: Seq<CatalogDll>,
    cached: Seq<CatalogDll>,
    backups: Seq<BackupRecord>,
)
    ensures
        profile_outcome(entries, installed, latest, cached, backups) is Swaps <==> forall|j: int|
            0 <= j < entries.len() ==> can_be_met(
                #[trigger] entries[j],
                installed,
                latest,
                cached,
                backups,
            ),
    decreases entries.len(),
{
    if entries.len() > 0 {
        let shorter = entries.drop_last();
        let last = entries.len() - 1;
        a_profile_is_refused_where_a_choice_cannot_be_met(
            shorter,
            installed,
            latest,
            cached,
            backups,
        );
        let met = |entry: ProfileEntry|
            can_be_met(entry, installed, latest, cached, backups);
        if let ProfileOutcome::Swaps(earlier) = profile_outcome(
            shorter,
            installed,
            latest,
            cached,
            backups,
        ) {
            a_choice_is_answered(entries[last], earlier, installed, latest, cached, backups);
            assert forall|j: int| 0 <= j < last implies met(#[trigger] entries[j]) by {
                assert(met(shorter[j]));
            }
        } else {
            let j = choose|j: int| 0 <= j < shorter.len() && !met(#[trigger] shorter[j]);
            assert(!met(entries[j]));
        }
    }
}

/// The swaps of a profile are, in the order of its choices, one for each choice
/// that is not met already, and each brings the content that its choice asks
/// for: a restored DLL the stored copy of its backup, any other the file of one
/// DLL of the list that the choice names.
pub proof fn every_choice_is_carried_out(
    entries: Seq<ProfileEntry>,
    installed: Seq<DllInstallation>,
    latest: Seq<CatalogDll>,
    cached: Seq<CatalogDll>,
    backups: Seq<BackupRecord>,
    swaps: Seq<PlannedSwap>,
) -> (asked: Seq<int>)
    requires
        profile_outcome(entries, installed, latest, cached, backups) == ProfileOutcome::Swaps(
            swaps,
        ),
    ensures
        asked.len() == swaps.len(),
        forall|a: int, b: int| 0 <= a < b < asked.len() ==> asked[a] < asked[b],
        forall|k: int|
            #![trigger swaps[k]]
            #![trigger asked[k]]
            0 <= k < swaps.len() ==> 0 <= asked[k] < entries.len() && answers(
                entries[asked[k]],
                installed,
                latest,
                cached,
                backups,
                swaps[k],
            ),
        forall|j: int|
            0 <= j < entries.len() && !asked.contains(j) ==> needs_nothing(
                #[trigger] entries[j],
                installed,
                latest,
            ),
    decreases entries.len(),
{
    if entries.len() == 0 {
        Seq::empty()
    } else {
        let shorter = entries.drop_last();
        let last = entries.len() - 1;
        let earlier = profile_outcome(shorter, installed, latest, cached, backups)->Swaps_0;
        let before = every_choice_is_carried_out(
            shorter,
            installed,
            latest,
            cached,
            backups,
            earlier,
        );
        assert forall|j: int| 0 <= j < last implies shorter[j] == #[trigger] entries[j] by {
        }
        a_choice_is_answered(entries[last], earlier, installed, latest, cached, backups);
        swaps_grow(entries, installed, latest, cached, backups, before, earlier, swaps)
    }
}

/// The swaps of a list of choices with one choice more.
proof fn swaps_grow(
    entries: Seq<ProfileEntry>,
    installed: Seq<DllInstallation>,
    latest: Seq<CatalogDll>,
    cached: Seq<CatalogDll>,
    backups: Seq<BackupRecord>,
    before: Seq<int>,
    earlier: Seq<PlannedSwap>,
    swaps: Seq<PlannedSwap>,
) -> (asked: Seq<int>)
    requires
        entries.len() > 0,
        before.len() == earlier.len(),
        forall|a: int, b: int| 0 <= a < b < before.len() ==> before[a] < before[b],
        forall|k: int|
            0 <= k < earlier.len() ==> 0 <= #[trigger] before[k] < entries.len() - 1 && answers(
                entries[before[k]],
                installed,
                latest,
                cached,
                backups,
                earlier[k],
            ),
        forall|j: int|
            0 <= j < entries.len() - 1 && !before.contains(j) ==> needs_nothing(
                #[trigger] entries[j],
                installed,
                latest,
            ),
        swaps == earlier && needs_nothing(entries.last(), installed, latest) || (swaps.len()
            == earlier.len() + 1 && swaps.drop_last() == earlier && answers(
            entries.last(),
            installed,
            latest,
            cached,
            backups,
            swaps.last(),
        )),
    ensures
        asked.len() == swaps.len(),
        forall|a: int, b: int| 0 <= a < b < asked.len() ==> asked[a] < asked[b],
        forall|k: int|
            #![trigger swaps[k]]
            #![trigger asked[k]]
            0 <= k < swaps.len() ==> 0 <= asked[k] < entries.len() && answers(
                entries[asked[k]],
                installed,
                latest,
                cached,
                backups,
                swaps[k],
            ),
        forall|j: int|
            0 <= j < entries.len() && !asked.contains(j) ==> needs_nothing(
                #[trigger] entries[j],
                installed,
                latest,
            ),
{
    let last = entries.len() - 1;
    let asked = if swaps.len() > earlier.len() {
        before.push(last)
    } else {
        before
    };
    assert forall|k: int|
        #![trigger swaps[k]]
        #![trigger asked[k]]
        0 <= k < swaps.len() implies 0 <= asked[k] < entries.len() && answers(
        entries[asked[k]],
        installed,
        latest,
        cached,
        backups,
        swaps[k],
    ) by {
        if k < earlier.len() {
            assert(asked[k] == before[k]);
            assert(swaps[k] == earlier[k]);
        }
    }
    assert forall|j: int| 0 <= j < entries.len() && !asked.contains(j) implies needs_nothing(
        #[trigger] entries[j],
        installed,
        latest,
    ) by {
        if j < last {
            if before.contains(j) {
                let k = choose|k: int| 0 <= k < before.len() && before[k] == j;
                assert(asked[k] == j);
            }
        } else if swaps.len() > earlier.len() {
            assert(asked[before.len() as int] == j);
        }
    }
    asked
}

/// Whether an installed DLL has a one-click upgrade: its version is known and
/// older than that of the last DLL of the catalog with its name.
pub open spec fn is_outdated(current: DllInstallation, latest: Seq<CatalogDll>) -> bool {
    &&& current.metadata.version matches Some(version)
    &&& exists|d: int|
        0 <= d < latest.len() && names_match((#[trigger] latest[d]).file_name, current.file_name)
            && version_less(version, latest[d].version) && (forall|i: int|
            d < i < latest.len() ==> !names_match(
                (#[trigger] latest[i]).file_name,
                current.file_name,
            ))
}

/// The one-click plan upgrades exactly the installed DLLs that are outdated, in
/// their order, each to the DLL of the catalog with its name; of the DLSS family
/// alone where only that is asked for.
pub proof fn every_outdated_dll_is_upgraded(
    installed: Seq<DllInstallation>,
    latest: Seq<CatalogDll>,
    dlss_only: bool,
) -> (outdated: Seq<int>)
    ensures
        picks(
            outdated,
            installed.len() as int,
            |i: int|
                is_outdated(installed[i], latest) && (dlss_only ==> is_dlss_name(
                    installed[i].file_name,
                )),
        ),
        upgrades_of(installed, latest, dlss_only).len() == outdated.len(),
        forall|k: int|
            #![trigger upgrades_of(installed, latest, dlss_only)[k]]
            0 <= k < outdated.len() ==> {
                let swap = upgrades_of(installed, latest, dlss_only)[k];
                let current = installed[outdated[k]];
                &&& swap.game == current.game_id
                &&& swap.installation == current.id
                &&& swap.target_path == current.path
                &&& swap.expected_sha256 == current.metadata.sha256
                &&& swap.comparison == Comparison::Upgrade
                &&& exists|d: int|
                    0 <= d < latest.len() && names_match(
                        (#[trigger] latest[d]).file_name,
                        current.file_name,
                    ) && version_less(current.metadata.version->0, latest[d].version)
                        && swap.source_path == latest[d].source && swap.source_sha256
                        == latest[d].sha256
            },
    decreases installed.len(),
{
    let here = |i: int|
        is_outdated(installed[i], latest) && (dlss_only ==> is_dlss_name(installed[i].file_name));
    if installed.len() == 0 {
        picks_nothing(here);
        Seq::empty()
    } else {
        let shorter = installed.drop_last();
        let last = installed.len() - 1;
        let before = every_outdated_dll_is_upgraded(shorter, latest, dlss_only);
        let current = installed[last];
        let d = the_last_of_a_name_counts(latest, current.file_name);
        if catalog_named(latest, current.file_name) is Some {
            assert(names_match(latest[d].file_name, current.file_name));
            if is_outdated(current, latest) {
                let e = choose|e: int|
                    0 <= e < latest.len() && names_match(
                        (#[trigger] latest[e]).file_name,
                        current.file_name,
                    ) && version_less(current.metadata.version->0, latest[e].version) && (forall|
                        i: int,
                    |
                        e < i < latest.len() ==> !names_match(
                            (#[trigger] latest[i]).file_name,
                            current.file_name,
                        ));
                assert(d == e);
            }
        }
        let outdated = picks_grow(
            before,
            last,
            |i: int|
                is_outdated(shorter[i], latest) && (dlss_only ==> is_dlss_name(
                    shorter[i].file_name,
                )),
            here,
        );
        let all = upgrades_of(installed, latest, dlss_only);
        let earlier = upgrades_of(shorter, latest, dlss_only);
        assert forall|k: int| #![trigger all[k]] 0 <= k < outdated.len() implies {
            let swap = all[k];
            let current = installed[outdated[k]];
            &&& swap.game == current.game_id
            &&& swap.installation == current.id
            &&& swap.target_path == current.path
            &&& swap.expected_sha256 == current.metadata.sha256
            &&& swap.comparison == Comparison::Upgrade
            &&& exists|d: int|
                0 <= d < latest.len() && names_match(
                    (#[trigger] latest[d]).file_name,
                    current.file_name,
                ) && version_less(current.metadata.version->0, latest[d].version)
                    && swap.source_path == latest[d].source && swap.source_sha256
                    == latest[d].sha256
        } by {
            if k < earlier.len() {
                assert(all[k] == earlier[k]);
                assert(outdated[k] == before[k]);
                assert(installed[outdated[k]] == shorter[before[k]]);
            } else {
                assert(names_match(latest[d].file_name, current.file_name));
            }
        }
        outdated
    }
}

} // verus!
