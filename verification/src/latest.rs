//! The latest official release, and what it means for the games in the library.

use crate::kinds::{is_dlss_dll, is_dlss_name, name_kind, DllKind};
use crate::library::GameRow;
use crate::lists::{
    first_is, first_is_wanted, first_where, picks, picks_grow, picks_nothing,
};
use crate::model::{
    names_match, same_file_name, version_less, CachedRelease, CatalogDll, DllInstallation,
    DllVersion, ReleaseState,
};
use crate::planning::{catalog_named, upgrade_of, upgrades_of};
use crate::text::same_text;
use vstd::prelude::*;

verus! {

/// The text of a tag that may not be known.
pub open spec fn tag_text(tag: Option<String>) -> Option<Seq<char>> {
    match tag {
        Some(tag) => Some(tag@),
        None => None,
    }
}

/// Whether a release has the tag `tag`.
pub open spec fn has_tag(tag: Seq<char>) -> spec_fn(CachedRelease) -> bool {
    |release: CachedRelease| release.metadata.tag@ == tag
}

/// Whether a release has the tag `tag` and is ready to be installed from.
pub open spec fn is_ready_with_tag(tag: Seq<char>) -> spec_fn(CachedRelease) -> bool {
    |release: CachedRelease|
        release.state == ReleaseState::Ready && release.metadata.tag@ == tag
}

/// The latest release, if it is downloaded and checked.
pub open spec fn latest_ready(releases: Seq<CachedRelease>, tag: Option<Seq<char>>) -> Option<
    CachedRelease,
> {
    match tag {
        Some(tag) => {
            let at = first_where(releases, is_ready_with_tag(tag));
            if at < releases.len() {
                Some(releases[at])
            } else {
                None
            }
        },
        None => None,
    }
}

/// The latest release in any state.
pub open spec fn latest_listed(releases: Seq<CachedRelease>, tag: Option<Seq<char>>) -> Option<
    CachedRelease,
> {
    match tag {
        Some(tag) => {
            let at = first_where(releases, has_tag(tag));
            if at < releases.len() {
                Some(releases[at])
            } else {
                None
            }
        },
        None => None,
    }
}

/// The latest release, if it is downloaded and checked.
pub fn latest_release<'a>(releases: &'a [CachedRelease], tag: &Option<String>) -> (release: Option<
    &'a CachedRelease,
>)
    ensures
        match release {
            Some(release) => latest_ready(releases@, tag_text(*tag)) == Some(*release),
            None => latest_ready(releases@, tag_text(*tag)) is None,
        },
{
    let wanted_tag = match tag {
        Some(tag) => tag,
        None => {
            return None;
        },
    };
    let ghost wanted = is_ready_with_tag(wanted_tag@);
    let mut at: usize = 0;
    while at < releases.len()
        invariant
            at <= releases@.len(),
            *tag == Some(*wanted_tag),
            wanted == is_ready_with_tag(wanted_tag@),
            forall|i: int| 0 <= i < at ==> !wanted(#[trigger] releases@[i]),
        decreases releases@.len() - at,
    {
        if releases[at].state == ReleaseState::Ready && same_text(
            &releases[at].metadata.tag,
            wanted_tag,
        ) {
            proof {
                first_is(releases@, wanted, at as int);
            }
            return Some(&releases[at]);
        }
        at += 1;
    }
    proof {
        first_is(releases@, wanted, at as int);
    }
    None
}

/// The latest release in any state.
pub fn latest_release_meta<'a>(releases: &'a [CachedRelease], tag: &Option<String>) -> (release:
    Option<&'a CachedRelease>)
    ensures
        match release {
            Some(release) => latest_listed(releases@, tag_text(*tag)) == Some(*release),
            None => latest_listed(releases@, tag_text(*tag)) is None,
        },
{
    let wanted_tag = match tag {
        Some(tag) => tag,
        None => {
            return None;
        },
    };
    let ghost wanted = has_tag(wanted_tag@);
    let mut at: usize = 0;
    while at < releases.len()
        invariant
            at <= releases@.len(),
            *tag == Some(*wanted_tag),
            wanted == has_tag(wanted_tag@),
            forall|i: int| 0 <= i < at ==> !wanted(#[trigger] releases@[i]),
        decreases releases@.len() - at,
    {
        if same_text(&releases[at].metadata.tag, wanted_tag) {
            proof {
                first_is(releases@, wanted, at as int);
            }
            return Some(&releases[at]);
        }
        at += 1;
    }
    proof {
        first_is(releases@, wanted, at as int);
    }
    None
}

/// Whether the latest release is downloaded and checked.
pub fn latest_release_ready(releases: &[CachedRelease], tag: &Option<String>) -> (ready: bool)
    ensures
        ready == (latest_ready(releases@, tag_text(*tag)) is Some),
{
    latest_release(releases, tag).is_some()
}

/// The DLLs of the latest release; none before it is downloaded and checked.
pub open spec fn latest_dlls(releases: Seq<CachedRelease>, tag: Option<Seq<char>>) -> Seq<
    CatalogDll,
> {
    match latest_ready(releases, tag) {
        Some(release) => release.dlls@,
        None => Seq::empty(),
    }
}

/// The DLLs of the latest release; none before it is downloaded and checked.
pub fn latest_catalog(releases: &[CachedRelease], tag: &Option<String>) -> (dlls: Vec<CatalogDll>)
    ensures
        dlls@ == latest_dlls(releases@, tag_text(*tag)),
{
    match latest_release(releases, tag) {
        Some(release) => {
            let dlls = release.dlls.clone();
            proof {
                assert(dlls@ =~= release.dlls@);
            }
            dlls
        },
        None => {
            let dlls: Vec<CatalogDll> = Vec::new();
            proof {
                assert(dlls@ =~= Seq::<CatalogDll>::empty());
            }
            dlls
        },
    }
}

/// The newest super resolution DLL of a release.
pub open spec fn newest_offer(dlls: Seq<CatalogDll>) -> Option<DllVersion>
    decreases dlls.len(),
{
    if dlls.len() == 0 {
        None
    } else {
        let before = newest_offer(dlls.drop_last());
        if name_kind(dlls.last().file_name) == Some(DllKind::DlssSuperResolution) {
            match before {
                Some(best) => if version_less(best, dlls.last().version) {
                    Some(dlls.last().version)
                } else {
                    before
                },
                None => Some(dlls.last().version),
            }
        } else {
            before
        }
    }
}

/// The newest super resolution DLL of a release, with which the library
/// compares.
pub fn latest_dlss_version(dlls: &[CatalogDll]) -> (version: Option<DllVersion>)
    ensures
        version == newest_offer(dlls@),
{
    let mut newest: Option<DllVersion> = None;
    let mut at: usize = 0;
    while at < dlls.len()
        invariant
            at <= dlls@.len(),
            newest == newest_offer(dlls@.take(at as int)),
        decreases dlls@.len() - at,
    {
        proof {
            assert(dlls@.take(at + 1).drop_last() =~= dlls@.take(at as int));
        }
        if let Some(DllKind::DlssSuperResolution) = DllKind::classify(&dlls[at].file_name) {
            let newer = match newest {
                Some(best) => best.is_older_than(&dlls[at].version),
                None => true,
            };
            if newer {
                newest = Some(dlls[at].version);
            }
        }
        at += 1;
    }
    proof {
        assert(dlls@.take(at as int) =~= dlls@);
    }
    newest
}

/// The newer version that a row offers next to the one that is installed.
pub fn offered_version(game: &GameRow, latest: Option<DllVersion>) -> (offer: Option<DllVersion>)
    ensures
        offer == match (game.dlss_version, latest) {
            (Some(installed), Some(newest)) => if version_less(installed, newest)
                && game.dlss_upgrades > 0 {
                Some(newest)
            } else {
                None
            },
            _ => None,
        },
{
    match (game.dlss_version, latest) {
        (Some(installed), Some(newest)) => {
            if installed.is_older_than(&newest) && game.dlss_upgrades > 0 {
                Some(newest)
            } else {
                None
            }
        },
        _ => None,
    }
}

/// Whether a release has a newer DLL of the same name.
pub open spec fn can_be_upgraded(dll: DllInstallation, latest: Seq<CatalogDll>) -> bool {
    dll.metadata.version matches Some(version) && exists|i: int|
        0 <= i < latest.len() && names_match((#[trigger] latest[i]).file_name, dll.file_name)
            && version_less(version, latest[i].version)
}

fn is_upgradable(dll: &DllInstallation, latest: &[CatalogDll]) -> (upgradable: bool)
    ensures
        upgradable == can_be_upgraded(*dll, latest@),
{
    let version = match dll.metadata.version {
        Some(version) => version,
        None => {
            return false;
        },
    };
    let mut at: usize = 0;
    while at < latest.len()
        invariant
            at <= latest@.len(),
            dll.metadata.version == Some(version),
            forall|i: int|
                0 <= i < at ==> !(names_match((#[trigger] latest@[i]).file_name, dll.file_name)
                    && version_less(version, latest@[i].version)),
        decreases latest@.len() - at,
    {
        if same_file_name(&latest[at].file_name, &dll.file_name) && version.is_older_than(
            &latest[at].version,
        ) {
            return true;
        }
        at += 1;
    }
    false
}

/// How many DLLs a release could upgrade; of the DLSS family alone if
/// `dlss_only`.
pub open spec fn upgrade_count(
    dlls: Seq<DllInstallation>,
    latest: Seq<CatalogDll>,
    dlss_only: bool,
) -> nat
    decreases dlls.len(),
{
    if dlls.len() == 0 {
        0
    } else {
        upgrade_count(dlls.drop_last(), latest, dlss_only) + if can_be_upgraded(dlls.last(), latest)
            && (!dlss_only || is_dlss_name(dlls.last().file_name)) {
            1nat
        } else {
            0nat
        }
    }
}

/// Counts the DLLs that a release could upgrade.
pub fn count_upgrades(dlls: &[DllInstallation], latest: &[CatalogDll], dlss_only: bool) -> (count:
    usize)
    ensures
        count == upgrade_count(dlls@, latest@, dlss_only),
        count <= dlls@.len(),
{
    let mut count: usize = 0;
    let mut at: usize = 0;
    while at < dlls.len()
        invariant
            at <= dlls@.len(),
            count == upgrade_count(dlls@.take(at as int), latest@, dlss_only),
            count <= at,
        decreases dlls@.len() - at,
    {
        proof {
            assert(dlls@.take(at + 1).drop_last() =~= dlls@.take(at as int));
        }
        if is_upgradable(&dlls[at], latest) && (!dlss_only || is_dlss_dll(&dlls[at].file_name)) {
            count += 1;
        }
        at += 1;
    }
    proof {
        assert(dlls@.take(at as int) =~= dlls@);
    }
    count
}

/// A row with its upgrades counted against a release.
pub open spec fn recounted(row: GameRow, latest: Seq<CatalogDll>) -> GameRow {
    GameRow {
        upgrades: upgrade_count(row.details@, latest, false) as usize,
        dlss_upgrades: upgrade_count(row.details@, latest, true) as usize,
        ..row
    }
}

/// Counts the upgrades of every game anew.
pub fn refresh_upgrade_counts(games: &mut Vec<GameRow>, latest: &[CatalogDll])
    ensures
        final(games).len() == old(games).len(),
        forall|i: int|
            0 <= i < final(games).len() ==> #[trigger] final(games)@[i] == recounted(
                old(games)@[i],
                latest@,
            ),
{
    let ghost before = games@;
    let mut at: usize = 0;
    while at < games.len()
        invariant
            at <= games.len(),
            games.len() == before.len(),
            forall|i: int|
                0 <= i < games.len() ==> #[trigger] games@[i] == if i < at {
                    recounted(before[i], latest@)
                } else {
                    before[i]
                },
        decreases games.len() - at,
    {
        let upgrades: usize = count_upgrades(games[at].details.as_slice(), latest, false);
        let dlss_upgrades: usize = count_upgrades(games[at].details.as_slice(), latest, true);
        games[at].upgrades = upgrades;
        games[at].dlss_upgrades = dlss_upgrades;
        at += 1;
    }
}

/// A game never has more upgrades than DLLs, nor more in the DLSS family than
/// in all.
pub proof fn upgrade_counts_are_bounded(dlls: Seq<DllInstallation>, latest: Seq<CatalogDll>)
    ensures
        upgrade_count(dlls, latest, true) <= upgrade_count(dlls, latest, false) <= dlls.len(),
    decreases dlls.len(),
{
    if dlls.len() > 0 {
        upgrade_counts_are_bounded(dlls.drop_last(), latest);
    }
}

/// Whether no two DLLs of a release go by the same name.
pub open spec fn names_differ(latest: Seq<CatalogDll>) -> bool {
    forall|i: int, j: int|
        0 <= i < j < latest.len() ==> !names_match(
            (#[trigger] latest[i]).file_name,
            (#[trigger] latest[j]).file_name,
        )
}

proof fn the_one_of_a_name(dll: DllInstallation, latest: Seq<CatalogDll>)
    requires
        names_differ(latest),
    ensures
        can_be_upgraded(dll, latest) <==> upgrade_of(dll, latest) is Some,
    decreases latest.len(),
{
    if latest.len() > 0 {
        let shorter = latest.drop_last();
        assert forall|i: int, j: int| 0 <= i < j < shorter.len() implies !names_match(
            (#[trigger] shorter[i]).file_name,
            (#[trigger] shorter[j]).file_name,
        ) by {
            assert(latest[i] == shorter[i] && latest[j] == shorter[j]);
        }
        the_one_of_a_name(dll, shorter);
        if let Some(version) = dll.metadata.version {
            let last = latest.len() - 1;
            if names_match(latest[last].file_name, dll.file_name) {
                assert(catalog_named(latest, dll.file_name) == Some(latest[last]));
                assert forall|i: int| 0 <= i < last implies !names_match(
                    (#[trigger] latest[i]).file_name,
                    dll.file_name,
                ) by {
                    assert(!names_match(latest[i].file_name, latest[last].file_name));
                }
                if version_less(version, latest[last].version) {
                    assert(can_be_upgraded(dll, latest));
                }
            } else {
                assert(catalog_named(latest, dll.file_name) == catalog_named(
                    shorter,
                    dll.file_name,
                ));
                if can_be_upgraded(dll, latest) {
                    let i = choose|i: int|
                        0 <= i < latest.len() && names_match(
                            (#[trigger] latest[i]).file_name,
                            dll.file_name,
                        ) && version_less(version, latest[i].version);
                    assert(shorter[i] == latest[i]);
                    assert(can_be_upgraded(dll, shorter));
                }
                if can_be_upgraded(dll, shorter) {
                    let i = choose|i: int|
                        0 <= i < shorter.len() && names_match(
                            (#[trigger] shorter[i]).file_name,
                            dll.file_name,
                        ) && version_less(version, shorter[i].version);
                    assert(shorter[i] == latest[i]);
                }
            }
        }
    }
}

/// The count that a row shows is the number of swaps that the review lists for
/// the game, as long as no two DLLs of the release go by the same name.
pub proof fn counts_agree_with_the_review(
    dlls: Seq<DllInstallation>,
    latest: Seq<CatalogDll>,
    dlss_only: bool,
)
    requires
        names_differ(latest),
    ensures
        upgrade_count(dlls, latest, dlss_only) == upgrades_of(dlls, latest, dlss_only).len(),
    decreases dlls.len(),
{
    if dlls.len() > 0 {
        counts_agree_with_the_review(dlls.drop_last(), latest, dlss_only);
        the_one_of_a_name(dlls.last(), latest);
    }
}

/// The last row with the identifier `id`.
pub open spec fn last_row_with(rows: Seq<GameRow>, id: Seq<char>) -> Option<GameRow>
    decreases rows.len(),
{
    if rows.len() == 0 {
        None
    } else if rows.last().id@ == id {
        Some(rows.last())
    } else {
        last_row_with(rows.drop_last(), id)
    }
}

/// Whether a row before `at` has the same identifier as the row at `at`.
pub open spec fn is_repeated(rows: Seq<GameRow>, at: int) -> bool {
    exists|i: int| 0 <= i < at && (#[trigger] rows[i]).id@ == rows[at].id@
}

/// A fresh row with what the user did to the game before.
pub open spec fn carried(previous: Seq<GameRow>, fresh: Seq<GameRow>, at: int) -> GameRow {
    match last_row_with(previous, fresh[at].id@) {
        Some(old) => if is_repeated(fresh, at) {
            fresh[at]
        } else {
            GameRow {
                selected: old.selected && fresh[at].dlls > 0,
                last_operation: old.last_operation,
                ..fresh[at]
            }
        },
        None => fresh[at],
    }
}

fn find_last_row(rows: &Vec<GameRow>, id: &crate::model::GameId) -> (found: Option<usize>)
    ensures
        match found {
            Some(at) => at < rows.len() && last_row_with(rows@, id@) == Some(rows@[at as int]),
            None => last_row_with(rows@, id@) is None,
        },
{
    let mut left: usize = rows.len();
    proof {
        assert(rows@.take(left as int) =~= rows@);
    }
    while left > 0
        invariant
            left <= rows.len(),
            last_row_with(rows@, id@) == last_row_with(rows@.take(left as int), id@),
        decreases left,
    {
        proof {
            assert(rows@.take(left as int).drop_last() =~= rows@.take(left - 1));
        }
        if rows[left - 1].id.same(id) {
            return Some(left - 1);
        }
        left -= 1;
    }
    None
}

/// Keeps what the user did to each game over a scan: which games were selected,
/// and what the last update did. A scan only reads files.
pub fn carry_over_rows(previous: &Vec<GameRow>, fresh: Vec<GameRow>) -> (rows: Vec<GameRow>)
    ensures
        rows.len() == fresh.len(),
        forall|i: int|
            0 <= i < rows.len() ==> #[trigger] rows@[i] == carried(previous@, fresh@, i),
{
    let ghost given = fresh@;
    let mut rows = fresh;
    let mut at: usize = 0;
    while at < rows.len()
        invariant
            at <= rows.len(),
            rows.len() == given.len(),
            forall|i: int|
                0 <= i < rows.len() ==> #[trigger] rows@[i] == if i < at {
                    carried(previous@, given, i)
                } else {
                    given[i]
                },
        decreases rows.len() - at,
    {
        let mut repeated = false;
        let mut earlier: usize = 0;
        while earlier < at && !repeated
            invariant
                earlier <= at < rows.len(),
                rows.len() == given.len(),
                forall|i: int|
                    0 <= i < rows.len() ==> #[trigger] rows@[i] == if i < at {
                        carried(previous@, given, i)
                    } else {
                        given[i]
                    },
                repeated ==> is_repeated(given, at as int),
                !repeated ==> forall|i: int|
                    0 <= i < earlier ==> (#[trigger] given[i]).id@ != given[at as int].id@,
            decreases at - earlier,
        {
            if rows[earlier].id.same(&rows[at].id) {
                proof {
                    assert(given[earlier as int].id@ == given[at as int].id@);
                }
                repeated = true;
            }
            earlier += 1;
        }
        match find_last_row(previous, &rows[at].id) {
            Some(old) => {
                if !repeated {
                    let selected = previous[old].selected && rows[at].dlls > 0;
                    let operation = match &previous[old].last_operation {
                        Some(text) => Some(text.clone()),
                        None => None,
                    };
                    rows[at].selected = selected;
                    rows[at].last_operation = operation;
                }
            },
            None => {},
        }
        at += 1;
    }
    rows
}

/// A scan keeps the selection of a game that is still there and still has DLLs,
/// and keeps what the last update did to it.
pub proof fn a_scan_keeps_the_selection(previous: Seq<GameRow>, fresh: Seq<GameRow>, at: int)
    requires
        0 <= at < fresh.len(),
        !is_repeated(fresh, at),
    ensures
        last_row_with(previous, fresh[at].id@) matches Some(old) ==> {
            &&& fresh[at].dlls > 0 ==> carried(previous, fresh, at).selected == old.selected
            &&& carried(previous, fresh, at).last_operation == old.last_operation
        },
        carried(previous, fresh, at).details == fresh[at].details,
{
}

/// A DLL counts as an upgrade exactly where its version is known, the release
/// has a newer DLL of its name, and it is of the DLSS family if only that is
/// counted.
pub proof fn every_upgrade_counts(
    dlls: Seq<DllInstallation>,
    latest: Seq<CatalogDll>,
    dlss_only: bool,
) -> (outdated: Seq<int>)
    ensures
        picks(outdated, dlls.len() as int, |i: int| (exists|d: int|
                    0 <= d < latest.len() && names_match(
                        (#[trigger] latest[d]).file_name,
                        dlls[i].file_name,
                    ) && dlls[i].metadata.version is Some && version_less(
                        dlls[i].metadata.version->0,
                        latest[d].version,
                    )) && (dlss_only ==> is_dlss_name(dlls[i].file_name))),
        upgrade_count(dlls, latest, dlss_only) == outdated.len(),
    decreases dlls.len(),
{
    let here = |i: int| (exists|d: int|
                    0 <= d < latest.len() && names_match(
                        (#[trigger] latest[d]).file_name,
                        dlls[i].file_name,
                    ) && dlls[i].metadata.version is Some && version_less(
                        dlls[i].metadata.version->0,
                        latest[d].version,
                    )) && (dlss_only ==> is_dlss_name(dlls[i].file_name));
    if dlls.len() == 0 {
        picks_nothing(here);
        Seq::empty()
    } else {
        let shorter = dlls.drop_last();
        let before = every_upgrade_counts(shorter, latest, dlss_only);
        picks_grow(before, shorter.len() as int, |i: int| (exists|d: int|
                    0 <= d < latest.len() && names_match(
                        (#[trigger] latest[d]).file_name,
                        shorter[i].file_name,
                    ) && shorter[i].metadata.version is Some && version_less(
                        shorter[i].metadata.version->0,
                        latest[d].version,
                    )) && (dlss_only ==> is_dlss_name(shorter[i].file_name)), here)
    }
}

/// The newest super resolution DLL of a release is one that it has, and no
/// super resolution DLL that it has is newer. There is none only where the
/// release has none.
pub proof fn the_newest_offer_is_the_newest(dlls: Seq<CatalogDll>)
    ensures
        newest_offer(dlls) matches Some(newest) ==> exists|d: int|
            0 <= d < dlls.len() && name_kind((#[trigger] dlls[d]).file_name) == Some(
                DllKind::DlssSuperResolution,
            ) && dlls[d].version == newest,
        newest_offer(dlls) matches Some(newest) ==> forall|d: int|
            0 <= d < dlls.len() && name_kind((#[trigger] dlls[d]).file_name) == Some(
                DllKind::DlssSuperResolution,
            ) ==> !version_less(newest, dlls[d].version),
        newest_offer(dlls) is None ==> forall|d: int|
            0 <= d < dlls.len() ==> name_kind((#[trigger] dlls[d]).file_name) != Some(
                DllKind::DlssSuperResolution,
            ),
    decreases dlls.len(),
{
    if dlls.len() > 0 {
        let shorter = dlls.drop_last();
        the_newest_offer_is_the_newest(shorter);
        assert forall|d: int| 0 <= d < shorter.len() implies shorter[d] == #[trigger] dlls[d] by {
        }
        if let Some(newest) = newest_offer(dlls) {
            if newest_offer(shorter) == Some(newest) {
                let d = choose|d: int|
                    0 <= d < shorter.len() && name_kind((#[trigger] shorter[d]).file_name) == Some(
                        DllKind::DlssSuperResolution,
                    ) && shorter[d].version == newest;
                assert(dlls[d].version == newest);
            } else {
                assert(dlls[dlls.len() - 1].version == newest);
            }
        }
    }
}

/// The latest release is the first one with the latest tag that is downloaded
/// and checked; its DLLs are on offer, and none are before that.
pub proof fn the_latest_release_has_the_latest_tag(releases: Seq<CachedRelease>, tag: Seq<char>) -> (at:
    int)
    ensures
        latest_ready(releases, None) is None,
        latest_listed(releases, None) is None,
        latest_ready(releases, Some(tag)) is None ==> forall|i: int|
            0 <= i < releases.len() ==> !((#[trigger] releases[i]).state == ReleaseState::Ready
                && releases[i].metadata.tag@ == tag),
        latest_ready(releases, Some(tag)) matches Some(release) ==> 0 <= at < releases.len()
            && release == releases[at] && release.state == ReleaseState::Ready
            && release.metadata.tag@ == tag && (forall|i: int|
            0 <= i < at ==> !((#[trigger] releases[i]).state == ReleaseState::Ready
                && releases[i].metadata.tag@ == tag)),
        latest_listed(releases, Some(tag)) is None ==> forall|i: int|
            0 <= i < releases.len() ==> (#[trigger] releases[i]).metadata.tag@ != tag,
        latest_listed(releases, Some(tag)) matches Some(release) ==> release.metadata.tag@ == tag
            && releases.contains(release),
        latest_ready(releases, Some(tag)) matches Some(release) ==> latest_dlls(releases, Some(tag))
            == release.dlls@,
        latest_ready(releases, Some(tag)) is None ==> latest_dlls(releases, Some(tag)).len() == 0,
{
    let ready = is_ready_with_tag(tag);
    let listed = has_tag(tag);
    first_is_wanted(releases, ready);
    first_is_wanted(releases, listed);
    let at = first_where(releases, ready);
    assert forall|i: int| 0 <= i < at implies !((#[trigger] releases[i]).state
        == ReleaseState::Ready && releases[i].metadata.tag@ == tag) by {
        assert(!ready(releases[i]));
    }
    assert forall|i: int| 0 <= i < first_where(releases, listed) implies (
    #[trigger] releases[i]).metadata.tag@ != tag by {
        assert(!listed(releases[i]));
    }
    at
}

/// Counting upgrades anew changes the two counts of a row and nothing else.
pub proof fn recounting_changes_only_counts(row: GameRow, latest: Seq<CatalogDll>)
    ensures
        recounted(row, latest) == (GameRow {
            upgrades: recounted(row, latest).upgrades,
            dlss_upgrades: recounted(row, latest).dlss_upgrades,
            ..row
        }),
        recounted(row, latest).upgrades == upgrade_count(row.details@, latest, false),
        recounted(row, latest).dlss_upgrades == upgrade_count(row.details@, latest, true),
{
    upgrade_counts_are_bounded(row.details@, latest);
    assert(row.details@.len() == row.details.len());
}

/// A scan changes no row but in whether it is selected and in what the last
/// update did, and there only to what they were for the same game before.
pub proof fn scans_carry_over_nothing_else(previous: Seq<GameRow>, fresh: Seq<GameRow>, at: int)
    ensures
        carried(previous, fresh, at) == (GameRow {
            selected: carried(previous, fresh, at).selected,
            last_operation: carried(previous, fresh, at).last_operation,
            ..fresh[at]
        }),
        (forall|i: int| 0 <= i < previous.len() ==> (#[trigger] previous[i]).id@ != fresh[at].id@)
            ==> carried(previous, fresh, at) == fresh[at],
        !is_repeated(fresh, at) ==> forall|last: int|
            0 <= last < previous.len() && (#[trigger] previous[last]).id@ == fresh[at].id@ && (
            forall|i: int|
                last < i < previous.len() ==> (#[trigger] previous[i]).id@ != fresh[at].id@) ==> {
                &&& carried(previous, fresh, at).selected == (previous[last].selected
                    && fresh[at].dlls > 0)
                &&& carried(previous, fresh, at).last_operation == previous[last].last_operation
            },
{
    let found = the_last_row_counts(previous, fresh[at].id@);
    assert forall|last: int|
        0 <= last < previous.len() && (#[trigger] previous[last]).id@ == fresh[at].id@ && (forall|
            i: int,
        |
            last < i < previous.len() ==> (#[trigger] previous[i]).id@ != fresh[at].id@) implies last
        == found by {
        assert(previous[found].id@ == fresh[at].id@);
    }
}

/// Of the rows with an identifier the last one counts.
pub proof fn the_last_row_counts(rows: Seq<GameRow>, id: Seq<char>) -> (at: int)
    ensures
        last_row_with(rows, id) is Some ==> 0 <= at < rows.len() && rows[at].id@ == id
            && last_row_with(rows, id) == Some(rows[at]) && (forall|i: int|
            at < i < rows.len() ==> (#[trigger] rows[i]).id@ != id),
        last_row_with(rows, id) is None ==> forall|i: int|
            0 <= i < rows.len() ==> (#[trigger] rows[i]).id@ != id,
    decreases rows.len(),
{
    if rows.len() == 0 {
        0
    } else if rows.last().id@ == id {
        rows.len() - 1
    } else {
        let shorter = rows.drop_last();
        let at = the_last_row_counts(shorter, id);
        assert forall|i: int| 0 <= i < rows.len() && (last_row_with(rows, id) is None || i
            > at) implies (#[trigger] rows[i]).id@ != id by {
            if i < shorter.len() {
                assert(shorter[i] == rows[i]);
            }
        }
        at
    }
}

} // verus!
