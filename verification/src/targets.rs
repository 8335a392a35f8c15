//! The page of a game: its DLLs, how they compare with the latest release, and
//! what can be chosen for each.

use crate::digest::same_hash;
use crate::imports::{import_id, imported_release_id, ImportedDllRecord};
use crate::kinds::name_kind;
use crate::labels::{
    counted, desired_label, desired_wording, dll_kind_rank, kind_rank, plural, version_wording,
};
use crate::latest::{latest_ready, latest_release, tag_text};
use crate::library::{has_staged, is_staged, GameRow};
use crate::lists::{picks, picks_grow, picks_nothing};
use crate::model::{
    compare_dll, dll_comparison, names_match, same_file_name, version_text, BackupRecord,
    CachedRelease, CatalogDll, Comparison, DesiredDll, DllInstallation, DllVersion, FileName,
    ReleaseId, ReleaseState,
};
use crate::order::{is_stable_order, stable_order, KeyModel, OrderKey};
use crate::paths::{bytes_of_name, raw_bytes};
use crate::planning::{best_official, find_best};
use crate::profile::TargetProfile;
use crate::review::{
    build_review_rows, cached_dlls, is_review_of, lists_cached, ReviewContent, ReviewIntent,
    ReviewSources, ReviewState,
};
use crate::session::Session;
use crate::text::{join_texts, join_three, join_two, joined_with, text_views};
use crate::tools::list_bytes;
use crate::worker::Command;
use vstd::prelude::*;
use vstd::utf8::encode_utf8;

verus! {

/// The bytes of a file name.
pub open spec fn name_bytes(name: FileName) -> Seq<u8> {
    match name {
        FileName::Unicode(text) => encode_utf8(text@),
        FileName::Other(text) => raw_bytes(text@),
    }
}

/// What a file name is sorted by: its bytes, each written as a character.
pub open spec fn name_key(name: FileName) -> Seq<char> {
    name_bytes(name).map_values(|byte: u8| byte as char)
}

fn key_of_name(name: &FileName) -> (key: Vec<char>)
    ensures
        key@ == name_key(*name),
{
    let bytes = match name {
        FileName::Unicode(text) => list_bytes(text.as_str().as_bytes()),
        FileName::Other(text) => bytes_of_name(text),
    };
    let mut key: Vec<char> = Vec::new();
    let mut at: usize = 0;
    while at < bytes.len()
        invariant
            at <= bytes.len(),
            bytes@ == name_bytes(*name),
            key@ == name_key(*name).take(at as int),
        decreases bytes.len() - at,
    {
        key.push(bytes[at] as char);
        at += 1;
        proof {
            assert(key@ =~= name_key(*name).take(at as int));
        }
    }
    proof {
        assert(name_key(*name).take(at as int) =~= name_key(*name));
    }
    key
}

/// What DLLs on the page of a game are sorted by: their family, then their
/// name.
pub open spec fn page_keys(dlls: Seq<DllInstallation>) -> Seq<KeyModel> {
    dlls.map_values(
        |dll: DllInstallation|
            KeyModel {
                number: kind_rank(name_kind(dll.file_name)) as int,
                first: name_key(dll.file_name),
                second: Seq::empty(),
            },
    )
}

/// The DLLs in the order of the positions `order`.
pub open spec fn dlls_at(dlls: Seq<DllInstallation>, order: Seq<usize>) -> Seq<DllInstallation> {
    order.map_values(|at: usize| dlls[at as int])
}

/// Whether `sorted` holds the DLLs of a game in the order of its page.
pub open spec fn is_page_of(dlls: Seq<DllInstallation>, sorted: Seq<DllInstallation>) -> bool {
    exists|order: Seq<usize>|
        #![trigger dlls_at(dlls, order)]
        is_stable_order(page_keys(dlls), false, order) && sorted == dlls_at(dlls, order)
}

/// The DLLs of a game in the order of its page.
pub fn page_of(dlls: &Vec<DllInstallation>) -> (sorted: Vec<DllInstallation>)
    ensures
        is_page_of(dlls@, sorted@),
        sorted.len() == dlls.len(),
{
    let mut keys: Vec<OrderKey> = Vec::new();
    let mut at: usize = 0;
    while at < dlls.len()
        invariant
            at <= dlls.len(),
            keys.len() == at,
            forall|i: int| 0 <= i < at ==> (#[trigger] keys@[i])@ == page_keys(dlls@)[i],
        decreases dlls.len() - at,
    {
        let key = OrderKey {
            number: dll_kind_rank(&dlls[at].file_name) as u128,
            first: key_of_name(&dlls[at].file_name),
            second: Vec::new(),
        };
        proof {
            assert(key.second@ =~= Seq::<char>::empty());
        }
        keys.push(key);
        at += 1;
    }
    proof {
        assert(keys@.map_values(|key: OrderKey| key@) =~= page_keys(dlls@));
    }
    let order = stable_order(&keys, false);
    let mut sorted: Vec<DllInstallation> = Vec::new();
    let mut next: usize = 0;
    while next < order.len()
        invariant
            next <= order.len(),
            order.len() == dlls.len(),
            is_stable_order(page_keys(dlls@), false, order@),
            sorted.len() == next,
            forall|i: int| 0 <= i < next ==> #[trigger] sorted@[i] == dlls_at(dlls@, order@)[i],
        decreases order.len() - next,
    {
        proof {
            assert(order@[next as int] < page_keys(dlls@).len());
        }
        sorted.push(dlls[order[next]].clone());
        next += 1;
    }
    proof {
        assert(sorted@ =~= dlls_at(dlls@, order@));
    }
    sorted
}

/// How a DLL compares with the latest release: the version of its counterpart
/// there, if there is one, and the outcome.
pub fn compare_with_latest(dll: &DllInstallation, latest: &[CatalogDll]) -> (compared: (
    Option<DllVersion>,
    Comparison,
))
    ensures
        compared.0 == match best_official(latest@, dll.file_name) {
            Some(target) => Some(target.version),
            None => None,
        },
        compared.1 == dll_comparison(
            Some(dll.metadata),
            best_official(latest@, dll.file_name),
        ),
{
    match find_best(latest, &dll.file_name) {
        Some(target) => (Some(target.version), compare_dll(Some(&dll.metadata), Some(target))),
        None => (None, Comparison::Unavailable),
    }
}

/// A choice and how it is worded.
#[derive(Debug, PartialEq, Eq)]
pub struct TargetOption {
    pub desired: DesiredDll,
    pub label: String,
}

/// A choice and how it is worded, as it is offered for a DLL.
pub struct Offer {
    /// The identifier of the release, where there is one.
    pub release: Seq<char>,
    pub sha256: [u8; 32],
    pub label: Seq<char>,
}

/// Whether an option is an offer to take a content from the cache.
pub open spec fn offers_cached(option: TargetOption, offer: Offer) -> bool {
    &&& option.desired matches DesiredDll::Cached { release, sha256 } && release@ == offer.release
        && sha256 == offer.sha256
    &&& option.label@ == offer.label
}

/// Whether an option is an offer to restore a backup.
pub open spec fn offers_backup(option: TargetOption, offer: Offer) -> bool {
    &&& option.desired matches DesiredDll::Restore { backup_sha256 } && backup_sha256
        == offer.sha256
    &&& option.label@ == offer.label
}

/// What a release offers for a DLL.
pub open spec fn offers_of_release(
    dlls: Seq<CatalogDll>,
    release: CachedRelease,
    dll: DllInstallation,
) -> Seq<Offer>
    decreases dlls.len(),
{
    if dlls.len() == 0 {
        Seq::empty()
    } else {
        let before = offers_of_release(dlls.drop_last(), release, dll);
        let candidate = dlls.last();
        if names_match(candidate.file_name, dll.file_name) {
            before.push(
                Offer {
                    release: release.metadata.id@,
                    sha256: candidate.sha256,
                    label: version_text(candidate.version) + " · "@ + release.metadata.tag@,
                },
            )
        } else {
            before
        }
    }
}

/// What the downloaded releases offer for a DLL.
pub open spec fn offers_of_releases(releases: Seq<CachedRelease>, dll: DllInstallation) -> Seq<Offer>
    decreases releases.len(),
{
    if releases.len() == 0 {
        Seq::empty()
    } else {
        let before = offers_of_releases(releases.drop_last(), dll);
        let release = releases.last();
        if release.state == ReleaseState::Ready {
            before + offers_of_release(release.dlls@, release, dll)
        } else {
            before
        }
    }
}

/// What the imports offer for a DLL.
pub open spec fn offers_of_imports(imports: Seq<ImportedDllRecord>, dll: DllInstallation) -> Seq<
    Offer,
>
    decreases imports.len(),
{
    if imports.len() == 0 {
        Seq::empty()
    } else {
        let before = offers_of_imports(imports.drop_last(), dll);
        let record = imports.last();
        if names_match(record.file_name, dll.file_name) {
            before.push(
                Offer {
                    release: import_id(record.sha256),
                    sha256: record.sha256,
                    label: "Imported "@ + version_text(record.version),
                },
            )
        } else {
            before
        }
    }
}

/// What the backups offer for a DLL, given when each was made, in words.
pub open spec fn offers_of_backups(
    backups: Seq<BackupRecord>,
    times: Seq<Seq<char>>,
    dll: DllInstallation,
) -> Seq<Offer>
    decreases backups.len(),
{
    if backups.len() == 0 {
        Seq::empty()
    } else {
        let before = offers_of_backups(backups.drop_last(), times, dll);
        let backup = backups.last();
        if backup.original_path@ == dll.path@ {
            before.push(
                Offer {
                    release: Seq::empty(),
                    sha256: backup.sha256,
                    label: "Restore backup "@ + version_wording(backup.version, "Unknown"@)
                        + " · "@ + times[backups.len() - 1],
                },
            )
        } else {
            before
        }
    }
}

/// Whether options are offers to take contents from the cache.
pub open spec fn are_cached_offers(options: Seq<TargetOption>, offers: Seq<Offer>) -> bool {
    options.len() == offers.len() && forall|i: int|
        0 <= i < options.len() ==> offers_cached(#[trigger] options[i], offers[i])
}

/// Whether options are offers to restore backups.
pub open spec fn are_backup_offers(options: Seq<TargetOption>, offers: Seq<Offer>) -> bool {
    options.len() == offers.len() && forall|i: int|
        0 <= i < options.len() ==> offers_backup(#[trigger] options[i], offers[i])
}

fn push_release_options(
    options: &mut Vec<TargetOption>,
    release: &CachedRelease,
    dll: &DllInstallation,
    Ghost(before): Ghost<Seq<Offer>>,
)
    requires
        are_cached_offers(old(options)@, before),
    ensures
        are_cached_offers(
            final(options)@,
            before + offers_of_release(release.dlls@, *release, *dll),
        ),
{
    let mut at: usize = 0;
    proof {
        assert(before + offers_of_release(release.dlls@.take(0), *release, *dll) =~= before);
    }
    while at < release.dlls.len()
        invariant
            at <= release.dlls.len(),
            are_cached_offers(
                options@,
                before + offers_of_release(release.dlls@.take(at as int), *release, *dll),
            ),
        decreases release.dlls.len() - at,
    {
        let candidate = &release.dlls[at];
        proof {
            assert(release.dlls@.take(at + 1).drop_last() =~= release.dlls@.take(at as int));
        }
        if same_file_name(&candidate.file_name, &dll.file_name) {
            let ghost some = offers_of_release(release.dlls@.take(at as int), *release, *dll);
            let label = join_three(
                &candidate.version.to_text(),
                " · ",
                &release.metadata.tag,
            );
            options.push(
                TargetOption {
                    desired: DesiredDll::Cached {
                        release: release.metadata.id.clone(),
                        sha256: candidate.sha256,
                    },
                    label,
                },
            );
            proof {
                let more = offers_of_release(release.dlls@.take(at + 1), *release, *dll);
                assert(before + more =~= (before + some).push(more.last()));
            }
        }
        at += 1;
    }
    proof {
        assert(release.dlls@.take(at as int) =~= release.dlls@);
    }
}

/// What can be chosen from the cache for a DLL: from the downloaded releases,
/// then from the imports.
pub fn cached_options(
    dll: &DllInstallation,
    releases: &[CachedRelease],
    imports: &[ImportedDllRecord],
) -> (options: Vec<TargetOption>)
    ensures
        are_cached_offers(
            options@,
            offers_of_releases(releases@, *dll) + offers_of_imports(imports@, *dll),
        ),
{
    let mut options: Vec<TargetOption> = Vec::new();
    let mut at: usize = 0;
    while at < releases.len()
        invariant
            at <= releases@.len(),
            are_cached_offers(options@, offers_of_releases(releases@.take(at as int), *dll)),
        decreases releases@.len() - at,
    {
        proof {
            assert(releases@.take(at + 1).drop_last() =~= releases@.take(at as int));
        }
        if releases[at].state == ReleaseState::Ready {
            push_release_options(
                &mut options,
                &releases[at],
                dll,
                Ghost(offers_of_releases(releases@.take(at as int), *dll)),
            );
        }
        at += 1;
    }
    proof {
        assert(releases@.take(at as int) =~= releases@);
    }
    let ghost before = offers_of_releases(releases@, *dll);
    let mut next: usize = 0;
    proof {
        assert(before + offers_of_imports(imports@.take(0), *dll) =~= before);
    }
    while next < imports.len()
        invariant
            next <= imports@.len(),
            are_cached_offers(
                options@,
                before + offers_of_imports(imports@.take(next as int), *dll),
            ),
        decreases imports@.len() - next,
    {
        let record = &imports[next];
        proof {
            assert(imports@.take(next + 1).drop_last() =~= imports@.take(next as int));
        }
        if same_file_name(&record.file_name, &dll.file_name) {
            let ghost some = offers_of_imports(imports@.take(next as int), *dll);
            options.push(
                TargetOption {
                    desired: DesiredDll::Cached {
                        release: imported_release_id(record.sha256),
                        sha256: record.sha256,
                    },
                    label: join_two("Imported ", &record.version.to_text()),
                },
            );
            proof {
                let more = offers_of_imports(imports@.take(next + 1), *dll);
                assert(before + more =~= (before + some).push(more.last()));
            }
        }
        next += 1;
    }
    proof {
        assert(imports@.take(next as int) =~= imports@);
    }
    options
}

/// The backups that can be restored in place of a DLL. `times` says when each
/// backup was made.
pub fn restore_options(dll: &DllInstallation, backups: &[BackupRecord], times: &Vec<String>) -> (
    options: Vec<TargetOption>)
    requires
        times.len() == backups@.len(),
    ensures
        are_backup_offers(
            options@,
            offers_of_backups(backups@, text_views(times@), *dll),
        ),
{
    let mut options: Vec<TargetOption> = Vec::new();
    let mut at: usize = 0;
    while at < backups.len()
        invariant
            at <= backups@.len(),
            times.len() == backups@.len(),
            are_backup_offers(
                options@,
                offers_of_backups(backups@.take(at as int), text_views(times@), *dll),
            ),
        decreases backups@.len() - at,
    {
        let backup = &backups[at];
        proof {
            assert(backups@.take(at + 1).drop_last() =~= backups@.take(at as int));
        }
        if backup.original_path.same(&dll.path) {
            let version = match backup.version {
                Some(version) => version.to_text(),
                None => "Unknown".to_owned(),
            };
            let label = join_two(
                &join_three("Restore backup ", &version, " · "),
                &times[at],
            );
            options.push(
                TargetOption {
                    desired: DesiredDll::Restore { backup_sha256: backup.sha256 },
                    label,
                },
            );
        }
        at += 1;
    }
    proof {
        assert(backups@.take(at as int) =~= backups@);
    }
    options
}

/// Whether an option stands for a choice.
pub open spec fn stands_for(desired: DesiredDll) -> spec_fn(TargetOption) -> bool {
    |option: TargetOption|
        match (option.desired, desired) {
            (DesiredDll::KeepInstalled, DesiredDll::KeepInstalled) => true,
            (DesiredDll::LatestOfficial, DesiredDll::LatestOfficial) => true,
            (
                DesiredDll::Cached { release: one, sha256: left },
                DesiredDll::Cached { release: two, sha256: right },
            ) => one@ == two@ && left == right,
            (
                DesiredDll::Restore { backup_sha256: left },
                DesiredDll::Restore { backup_sha256: right },
            ) => left == right,
            _ => false,
        }
}

/// Whether two choices are the same.
pub fn same_choice(left: &DesiredDll, right: &DesiredDll) -> (same: bool)
    ensures
        forall|label: String|
            same == #[trigger] stands_for(*right)(TargetOption { desired: *left, label }),
{
    match (left, right) {
        (DesiredDll::KeepInstalled, DesiredDll::KeepInstalled) => true,
        (DesiredDll::LatestOfficial, DesiredDll::LatestOfficial) => true,
        (
            DesiredDll::Cached { release: one, sha256: left },
            DesiredDll::Cached { release: two, sha256: right },
        ) => one.same(two) && same_hash(left, right),
        (
            DesiredDll::Restore { backup_sha256: left },
            DesiredDll::Restore { backup_sha256: right },
        ) => same_hash(left, right),
        _ => false,
    }
}

/// How a choice is worded among options: as the first that stands for it, or,
/// where there is none, by itself.
pub open spec fn option_wording(options: Seq<TargetOption>, desired: DesiredDll) -> Seq<char> {
    let at = crate::lists::first_where(options, stands_for(desired));
    if at < options.len() {
        options[at].label@
    } else {
        desired_wording(desired)
    }
}

fn label_among(options: &Vec<TargetOption>, desired: &DesiredDll) -> (label: String)
    ensures
        label@ == option_wording(options@, *desired),
{
    let ghost wanted = stands_for(*desired);
    let mut at: usize = 0;
    while at < options.len()
        invariant
            at <= options.len(),
            wanted == stands_for(*desired),
            forall|i: int| 0 <= i < at ==> !wanted(#[trigger] options@[i]),
        decreases options.len() - at,
    {
        let same = same_choice(&options[at].desired, desired);
        proof {
            let option = options@[at as int];
            assert(same == stands_for(*desired)(
                TargetOption { desired: option.desired, label: option.label },
            ));
        }
        if same {
            proof {
                crate::lists::first_is(options@, wanted, at as int);
            }
            return options[at].label.clone();
        }
        at += 1;
    }
    proof {
        crate::lists::first_is(options@, wanted, at as int);
    }
    desired_label(desired)
}

/// How it is worded to keep what is installed.
pub open spec fn installed_wording(dll: DllInstallation) -> Seq<char> {
    match dll.metadata.version {
        Some(version) => "Keep installed ("@ + version_text(version) + ")"@,
        None => "Keep installed"@,
    }
}

/// How it is worded to keep what is installed.
pub fn installed_label(dll: &DllInstallation) -> (label: String)
    ensures
        label@ == installed_wording(*dll),
{
    match dll.metadata.version {
        Some(version) => join_three("Keep installed (", &version.to_text(), ")"),
        None => "Keep installed".to_owned(),
    }
}

/// How the choice that is staged for a DLL is worded.
pub open spec fn selected_wording(
    dll: DllInstallation,
    desired: DesiredDll,
    cached: Seq<TargetOption>,
    restore: Seq<TargetOption>,
    latest: Seq<CatalogDll>,
) -> Seq<char> {
    match desired {
        DesiredDll::KeepInstalled => installed_wording(dll),
        DesiredDll::Cached { .. } => option_wording(cached, desired),
        DesiredDll::Restore { .. } => option_wording(restore, desired),
        DesiredDll::LatestOfficial => match best_official(latest, dll.file_name) {
            Some(target) => version_text(target.version) + " · Latest official"@,
            None => "Latest official"@,
        },
    }
}

/// How the choice that is staged for a DLL is worded.
pub fn selected_label(
    dll: &DllInstallation,
    desired: &DesiredDll,
    cached: &Vec<TargetOption>,
    restore: &Vec<TargetOption>,
    latest: &[CatalogDll],
) -> (label: String)
    ensures
        label@ == selected_wording(*dll, *desired, cached@, restore@, latest@),
{
    match desired {
        DesiredDll::KeepInstalled => installed_label(dll),
        DesiredDll::Cached { .. } => label_among(cached, desired),
        DesiredDll::Restore { .. } => label_among(restore, desired),
        DesiredDll::LatestOfficial => match find_best(latest, &dll.file_name) {
            Some(target) => join_two(&target.version.to_text(), " · Latest official"),
            None => "Latest official".to_owned(),
        },
    }
}

/// How many DLLs of a game have staged changes.
pub open spec fn staged_count(profile: TargetProfile, dlls: Seq<DllInstallation>) -> nat
    decreases dlls.len(),
{
    if dlls.len() == 0 {
        0
    } else {
        staged_count(profile, dlls.drop_last()) + if is_staged(profile, dlls.last().id@) {
            1nat
        } else {
            0nat
        }
    }
}

/// How many DLLs of a game have staged changes.
pub fn staged_targets_for(profile: &TargetProfile, dlls: &Vec<DllInstallation>) -> (count: usize)
    ensures
        count == staged_count(*profile, dlls@),
        count <= dlls.len(),
{
    let mut count: usize = 0;
    let mut at: usize = 0;
    while at < dlls.len()
        invariant
            at <= dlls.len(),
            count == staged_count(*profile, dlls@.take(at as int)),
            count <= at,
        decreases dlls.len() - at,
    {
        proof {
            assert(dlls@.take(at + 1).drop_last() =~= dlls@.take(at as int));
        }
        if has_staged(profile, &dlls[at]) {
            count += 1;
        }
        at += 1;
    }
    proof {
        assert(dlls@.take(at as int) =~= dlls@);
    }
    count
}

/// What the head of a game's page says of the game.
pub open spec fn facts_wording(game: GameRow) -> Seq<char> {
    let count = counted(game.dlls as nat, "NVIDIA DLL"@);
    let updates = if game.upgrades > 0 {
        seq![count, counted(game.upgrades as nat, "update"@)]
    } else {
        seq![count]
    };
    let all = match game.last_operation {
        Some(operation) => updates.push(operation@),
        None => updates,
    };
    "· "@ + joined_with(all, " · "@)
}

/// What the head of a game's page says of the game.
pub fn game_facts(game: &GameRow) -> (facts: String)
    ensures
        facts@ == facts_wording(*game),
{
    let mut parts: Vec<String> = Vec::new();
    let count = plural(game.dlls, "NVIDIA DLL");
    let ghost first = count@;
    parts.push(count);
    proof {
        assert(text_views(parts@) =~= seq![first]);
    }
    let ghost mut all = text_views(parts@);
    if game.upgrades > 0 {
        let updates = plural(game.upgrades, "update");
        let ghost second = updates@;
        parts.push(updates);
        proof {
            assert(text_views(parts@) =~= seq![first, second]);
            all = text_views(parts@);
        }
    }
    if let Some(operation) = &game.last_operation {
        parts.push(operation.clone());
        proof {
            assert(text_views(parts@) =~= all.push(operation@));
        }
    }
    join_two("· ", &join_texts(&parts, " · "))
}

/// Whether a game can be updated now, or else why not.
pub fn can_update(game: &GameRow, catalog_known: bool, busy: bool) -> (reason: Option<&'static str>)
    ensures
        match reason {
            None => catalog_known && game.dlls > 0 && !busy,
            Some(reason) => if busy {
                reason@ == "Wait for the current update to finish"@
            } else if game.dlls == 0 {
                reason@ == "This game has no NVIDIA DLLs"@
            } else {
                !catalog_known && reason@ == "The release catalog has not loaded yet"@
            },
        },
{
    if busy {
        Some("Wait for the current update to finish")
    } else if game.dlls == 0 {
        Some("This game has no NVIDIA DLLs")
    } else if !catalog_known {
        Some("The release catalog has not loaded yet")
    } else {
        None
    }
}

/// Whether `sources` are what a session can take DLLs from.
pub open spec fn are_sources_of(session: Session, sources: ReviewSources) -> bool {
    &&& match (
        sources.latest,
        latest_ready(session.releases@, tag_text(session.catalog_release)),
    ) {
        (Some(left), Some(right)) => *left == right,
        (None, None) => true,
        _ => false,
    }
    &&& sources.releases@ == session.releases@
    &&& sources.imports@ == session.imports.records@
    &&& sources.backups@ == session.backups@
    &&& lists_cached(session.releases@, session.imports.records@, sources.cached@)
}

/// Whether a review lists what there is to review in a session.
pub open spec fn is_reviewed(session: Session, intent: ReviewIntent, review: ReviewState) -> bool {
    exists|sources: ReviewSources|
        #[trigger] are_sources_of(session, sources) && is_review_of(
            intent,
            session.games@,
            sources,
            session.persisted.target_profile,
            ReviewContent { rows: review.rows, errors: review.errors, ready: review.ready },
        ) && review.intent == intent
}

impl Session {
    fn review_content(&self, intent: &ReviewIntent) -> (content: ReviewContent)
        ensures
            exists|sources: ReviewSources|
                #[trigger] are_sources_of(*self, sources) && is_review_of(
                    *intent,
                    self.games@,
                    sources,
                    self.persisted.target_profile,
                    content,
                ),
    {
        let cached = cached_dlls(self.releases.as_slice(), &self.imports);
        let sources = ReviewSources {
            latest: latest_release(self.releases.as_slice(), &self.catalog_release),
            releases: self.releases.as_slice(),
            imports: self.imports.records.as_slice(),
            backups: self.backups.as_slice(),
            cached: cached.as_slice(),
        };
        let content = build_review_rows(
            intent,
            self.games.as_slice(),
            &sources,
            &self.persisted.target_profile,
        );
        proof {
            assert(are_sources_of(*self, sources));
        }
        content
    }

    /// Opens a review.
    pub fn open_review(&mut self, intent: ReviewIntent)
        ensures
            *final(self) == (Session { review: final(self).review, ..*old(self) }),
            final(self).review matches Some(review) && is_reviewed(*old(self), intent, review),
    {
        let content = self.review_content(&intent);
        self.review = Some(
            ReviewState {
                intent,
                rows: content.rows,
                errors: content.errors,
                ready: content.ready,
            },
        );
    }

    /// Lists the rows of a review that was opened before the latest release was
    /// downloaded, as soon as it is.
    pub fn complete_review(&mut self)
        ensures
            match old(self).review {
                Some(review) => if !review.ready && latest_ready(
                    old(self).releases@,
                    tag_text(old(self).catalog_release),
                ) is Some {
                    &&& *final(self) == (Session { review: final(self).review, ..*old(self) })
                    &&& final(self).review matches Some(fresh) && is_reviewed(
                        *old(self),
                        review.intent,
                        fresh,
                    )
                } else {
                    *final(self) == *old(self)
                },
                None => *final(self) == *old(self),
            },
    {
        let waiting = match &self.review {
            Some(review) => !review.ready,
            None => false,
        };
        if !waiting || latest_release(
            self.releases.as_slice(),
            &self.catalog_release,
        ).is_none() {
            return ;
        }
        let mut open: Option<ReviewState> = None;
        std::mem::swap(&mut open, &mut self.review);
        if let Some(review) = open {
            let ghost emptied = *self;
            self.open_review(review.intent);
            proof {
                let fresh = self.review->0;
                let sources = choose|sources: ReviewSources|
                    #[trigger] are_sources_of(emptied, sources) && is_review_of(
                        review.intent,
                        emptied.games@,
                        sources,
                        emptied.persisted.target_profile,
                        ReviewContent {
                            rows: fresh.rows,
                            errors: fresh.errors,
                            ready: fresh.ready,
                        },
                    ) && fresh.intent == review.intent;
                assert(are_sources_of(*old(self), sources));
            }
        }
    }

    /// Asks for the content of a release. The result is what the worker has to
    /// be told.
    pub fn request_release(&mut self, id: &ReleaseId) -> (command: Command)
        ensures
            *final(self) == (Session {
                inspecting_release: Some(*id),
                release_progress: None,
                ..*old(self)
            }),
            command == Command::InspectRelease(*id),
    {
        self.inspecting_release = Some(id.clone());
        self.release_progress = None;
        Command::InspectRelease(id.clone())
    }
}

/// A release offers each of its DLLs of the same name, in order and under its
/// version and the tag, and nothing else.
pub proof fn every_matching_dll_is_offered(
    dlls: Seq<CatalogDll>,
    release: CachedRelease,
    dll: DllInstallation,
) -> (offered: Seq<int>)
    ensures
        picks(offered, dlls.len() as int, |i: int| names_match(dlls[i].file_name, dll.file_name)),
        offers_of_release(dlls, release, dll).len() == offered.len(),
        forall|k: int|
            #![trigger offers_of_release(dlls, release, dll)[k]]
            0 <= k < offered.len() ==> {
                let offer = offers_of_release(dlls, release, dll)[k];
                &&& offer.release == release.metadata.id@
                &&& offer.sha256 == dlls[offered[k]].sha256
                &&& offer.label == version_text(dlls[offered[k]].version) + " · "@
                    + release.metadata.tag@
            },
    decreases dlls.len(),
{
    let here = |i: int| names_match(dlls[i].file_name, dll.file_name);
    if dlls.len() == 0 {
        picks_nothing(here);
        Seq::empty()
    } else {
        let shorter = dlls.drop_last();
        let before = every_matching_dll_is_offered(shorter, release, dll);
        picks_grow(
            before,
            shorter.len() as int,
            |i: int| names_match(shorter[i].file_name, dll.file_name),
            here,
        )
    }
}

/// Each imported DLL of the same name is offered, in order and under its
/// version, and nothing else is.
pub proof fn every_matching_import_is_offered(
    imports: Seq<ImportedDllRecord>,
    dll: DllInstallation,
) -> (offered: Seq<int>)
    ensures
        picks(
            offered,
            imports.len() as int,
            |i: int| names_match(imports[i].file_name, dll.file_name),
        ),
        offers_of_imports(imports, dll).len() == offered.len(),
        forall|k: int|
            #![trigger offers_of_imports(imports, dll)[k]]
            0 <= k < offered.len() ==> {
                let offer = offers_of_imports(imports, dll)[k];
                &&& offer.release == import_id(imports[offered[k]].sha256)
                &&& offer.sha256 == imports[offered[k]].sha256
                &&& offer.label == "Imported "@ + version_text(imports[offered[k]].version)
            },
    decreases imports.len(),
{
    let here = |i: int| names_match(imports[i].file_name, dll.file_name);
    if imports.len() == 0 {
        picks_nothing(here);
        Seq::empty()
    } else {
        let shorter = imports.drop_last();
        let before = every_matching_import_is_offered(shorter, dll);
        picks_grow(
            before,
            shorter.len() as int,
            |i: int| names_match(shorter[i].file_name, dll.file_name),
            here,
        )
    }
}

/// Each backup of the file of a DLL is offered, in order and under its version
/// and time, and nothing else is.
pub proof fn every_backup_of_a_file_is_offered(
    backups: Seq<BackupRecord>,
    times: Seq<Seq<char>>,
    dll: DllInstallation,
) -> (offered: Seq<int>)
    ensures
        picks(offered, backups.len() as int, |i: int| backups[i].original_path@ == dll.path@),
        offers_of_backups(backups, times, dll).len() == offered.len(),
        forall|k: int|
            #![trigger offers_of_backups(backups, times, dll)[k]]
            0 <= k < offered.len() ==> {
                let offer = offers_of_backups(backups, times, dll)[k];
                &&& offer.sha256 == backups[offered[k]].sha256
                &&& offer.label == "Restore backup "@ + (match backups[offered[k]].version {
                    Some(version) => version_text(version),
                    None => "Unknown"@,
                }) + " · "@ + times[offered[k]]
            },
    decreases backups.len(),
{
    let here = |i: int| backups[i].original_path@ == dll.path@;
    if backups.len() == 0 {
        picks_nothing(here);
        Seq::empty()
    } else {
        let shorter = backups.drop_last();
        let before = every_backup_of_a_file_is_offered(shorter, times, dll);
        picks_grow(
            before,
            shorter.len() as int,
            |i: int| shorter[i].original_path@ == dll.path@,
            here,
        )
    }
}

/// A DLL counts as staged exactly where the profile has a choice for it.
pub proof fn every_staged_dll_counts(
    profile: TargetProfile,
    dlls: Seq<DllInstallation>,
) -> (staged: Seq<int>)
    ensures
        picks(staged, dlls.len() as int, |i: int| is_staged(profile, dlls[i].id@)),
        staged_count(profile, dlls) == staged.len(),
    decreases dlls.len(),
{
    let here = |i: int| is_staged(profile, dlls[i].id@);
    if dlls.len() == 0 {
        picks_nothing(here);
        Seq::empty()
    } else {
        let shorter = dlls.drop_last();
        let before = every_staged_dll_counts(profile, shorter);
        picks_grow(before, shorter.len() as int, |i: int| is_staged(profile, shorter[i].id@), here)
    }
}

/// What several releases offer is what each offers that is downloaded and
/// checked, one release after the other.
pub proof fn releases_add_up(
    first: Seq<CachedRelease>,
    last: Seq<CachedRelease>,
    dll: DllInstallation,
)
    ensures
        offers_of_releases(first + last, dll) == offers_of_releases(first, dll)
            + offers_of_releases(last, dll),
        last.len() == 0 ==> offers_of_releases(last, dll).len() == 0,
        last.len() == 1 && last[0].state == ReleaseState::Ready ==> offers_of_releases(last, dll)
            == offers_of_release(last[0].dlls@, last[0], dll),
        last.len() == 1 && last[0].state != ReleaseState::Ready ==> offers_of_releases(
            last,
            dll,
        ).len() == 0,
    decreases last.len(),
{
    if last.len() == 0 {
        assert(first + last =~= first);
        assert(offers_of_releases(first, dll) + offers_of_releases(last, dll)
            =~= offers_of_releases(first, dll));
    } else {
        let shorter = last.drop_last();
        releases_add_up(first, shorter, dll);
        assert((first + last).drop_last() =~= first + shorter);
        assert((first + last).last() == last.last());
        assert(offers_of_releases(first + last, dll) =~= offers_of_releases(first, dll)
            + offers_of_releases(last, dll));
        if last.len() == 1 {
            assert(shorter =~= Seq::empty());
            assert(offers_of_releases(last, dll) =~= if last[0].state == ReleaseState::Ready {
                offers_of_release(last[0].dlls@, last[0], dll)
            } else {
                Seq::empty()
            });
        }
    }
}

/// An option stands for a choice where both ask for the same: to keep what is
/// installed, the latest release, one content of one release, or one backup.
pub proof fn options_stand_for_equal_choices(option: TargetOption, desired: DesiredDll)
    ensures
        desired is KeepInstalled ==> (stands_for(desired)(option)
            <==> option.desired is KeepInstalled),
        desired is LatestOfficial ==> (stands_for(desired)(option)
            <==> option.desired is LatestOfficial),
        desired matches DesiredDll::Cached { release, sha256 } ==> (stands_for(desired)(option) <==> (
        option.desired matches DesiredDll::Cached { release: other, sha256: content } && other@
            == release@ && content == sha256)),
        desired matches DesiredDll::Restore { backup_sha256 } ==> (stands_for(desired)(option)
            <==> (option.desired matches DesiredDll::Restore { backup_sha256: content } && content
            == backup_sha256)),
{
}

/// A review is made from what the session holds now: the latest release that is
/// ready, all releases, imports and backups, and the user's staged choices.
pub proof fn reviews_are_made_from_the_session<'a>(
    session: Session,
    intent: ReviewIntent,
    review: ReviewState,
) -> (sources: ReviewSources<'a>)
    requires
        is_reviewed(session, intent, review),
    ensures
        review.intent == intent,
        sources.releases@ == session.releases@,
        sources.imports@ == session.imports.records@,
        sources.backups@ == session.backups@,
        sources.latest is Some <==> latest_ready(
            session.releases@,
            tag_text(session.catalog_release),
        ) is Some,
        sources.latest matches Some(release) ==> Some(*release) == latest_ready(
            session.releases@,
            tag_text(session.catalog_release),
        ),
        lists_cached(session.releases@, session.imports.records@, sources.cached@),
        is_review_of(
            intent,
            session.games@,
            sources,
            session.persisted.target_profile,
            ReviewContent { rows: review.rows, errors: review.errors, ready: review.ready },
        ),
{
    choose|sources: ReviewSources|
        #[trigger] are_sources_of(session, sources) && is_review_of(
            intent,
            session.games@,
            sources,
            session.persisted.target_profile,
            ReviewContent { rows: review.rows, errors: review.errors, ready: review.ready },
        ) && review.intent == intent
}

/// The page of a game shows every DLL of it once, the kinds one after the
/// other and within a kind by name.
pub proof fn pages_show_every_dll(dlls: Seq<DllInstallation>, sorted: Seq<DllInstallation>) -> (order:
    Seq<usize>)
    requires
        is_page_of(dlls, sorted),
    ensures
        sorted.len() == dlls.len(),
        order.len() == dlls.len(),
        forall|i: int, j: int| 0 <= i < j < order.len() ==> order[i] != order[j],
        forall|i: int| 0 <= i < sorted.len() ==> #[trigger] sorted[i] == dlls[order[i] as int],
        forall|k: int| 0 <= k < dlls.len() ==> sorted.contains(#[trigger] dlls[k]),
        forall|i: int, j: int|
            0 <= i < j < sorted.len() ==> kind_rank(name_kind((#[trigger] sorted[i]).file_name))
                <= kind_rank(name_kind((#[trigger] sorted[j]).file_name)),
{
    let keys = page_keys(dlls);
    let order = choose|order: Seq<usize>|
        #![trigger dlls_at(dlls, order)]
        is_stable_order(keys, false, order) && sorted == dlls_at(dlls, order);
    crate::order::stable_orders_are_sorted(keys, false, order);
    assert forall|k: int| 0 <= k < dlls.len() implies sorted.contains(#[trigger] dlls[k]) by {
        assert(crate::order::lists(order, k));
        let i = choose|i: int| 0 <= i < order.len() && #[trigger] order[i] == k;
        assert(sorted[i] == dlls[k]);
    }
    assert forall|i: int, j: int| 0 <= i < j < sorted.len() implies kind_rank(
        name_kind((#[trigger] sorted[i]).file_name),
    ) <= kind_rank(name_kind((#[trigger] sorted[j]).file_name)) by {
        assert(keys[order[i] as int].number <= keys[order[j] as int].number);
    }
    order
}

/// Each offer is one option, in its order: from the cache it asks for that
/// content of that release, from the backups for that backup.
pub proof fn each_offer_is_an_option(
    cached: Seq<TargetOption>,
    restored: Seq<TargetOption>,
    offers: Seq<Offer>,
    i: int,
)
    requires
        are_cached_offers(cached, offers),
        are_backup_offers(restored, offers),
        0 <= i < offers.len(),
    ensures
        cached.len() == offers.len(),
        restored.len() == offers.len(),
        cached[i].desired matches DesiredDll::Cached { release, sha256 } && release@
            == offers[i].release && sha256 == offers[i].sha256,
        restored[i].desired matches DesiredDll::Restore { backup_sha256 } && backup_sha256
            == offers[i].sha256,
        cached[i].label@ == offers[i].label,
        restored[i].label@ == offers[i].label,
{
    assert(offers_cached(cached[i], offers[i]));
    assert(offers_backup(restored[i], offers[i]));
}

} // verus!
