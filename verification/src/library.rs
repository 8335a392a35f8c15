//! The library: one row for each game, and which rows are shown in what order.

use crate::icons;
use crate::kinds::{name_kind, DllKind};
use crate::labels::{store_label, store_wording};
use crate::lists::{first_is, first_where};
use crate::model::{
    version_less, version_number, DesiredDll, DllInstallation, DllVersion, GameId, GameInstall,
    StoreKind,
};
use crate::order::{is_stable_order, stable_order, KeyModel, OrderKey};
use crate::paths::FilePath;
use crate::profile::TargetProfile;
use crate::risk::{game_risk, known_game_risk};
use crate::text::{chars_of, holds_part, lowercase, occurs};
use vstd::prelude::*;

verus! {

/// A game in the library.
#[derive(Debug, PartialEq, Eq)]
pub struct GameRow {
    pub id: GameId,
    pub selected: bool,
    pub name: String,
    pub store: &'static str,
    pub store_kind: StoreKind,
    pub root: FilePath,
    /// How many managed DLLs there are.
    pub dlls: usize,
    /// The newest super resolution DLL of the game.
    pub dlss_version: Option<DllVersion>,
    /// How many DLLs of the DLSS family could be upgraded.
    pub dlss_upgrades: usize,
    /// How many DLLs could be upgraded.
    pub upgrades: usize,
    /// A DLL has no readable version.
    pub has_unknown: bool,
    /// What the last update or undo did to this game.
    pub last_operation: Option<String>,
    pub details: Vec<DllInstallation>,
    pub inspection_errors: usize,
    pub known_risk: Option<&'static str>,
}

/// Whether a DLL is one of DLSS super resolution.
pub open spec fn is_super_resolution(dll: DllInstallation) -> bool {
    name_kind(dll.file_name) == Some(DllKind::DlssSuperResolution)
}

/// The newest known version among the super resolution DLLs.
pub open spec fn newest_dlss(dlls: Seq<DllInstallation>) -> Option<DllVersion>
    decreases dlls.len(),
{
    if dlls.len() == 0 {
        None
    } else {
        let before = newest_dlss(dlls.drop_last());
        match (is_super_resolution(dlls.last()), dlls.last().metadata.version) {
            (true, Some(version)) => match before {
                Some(best) => if version_less(best, version) {
                    Some(version)
                } else {
                    before
                },
                None => Some(version),
            },
            _ => before,
        }
    }
}

/// Whether some DLL has no known version.
pub open spec fn some_version_unknown(dlls: Seq<DllInstallation>) -> bool {
    exists|i: int| 0 <= i < dlls.len() && (#[trigger] dlls[i]).metadata.version is None
}

/// Whether `row` is the fresh row of a game.
pub open spec fn is_row_of(row: GameRow, game: GameInstall) -> bool {
    &&& row.id == game.id
    &&& !row.selected
    &&& row.name == game.name
    &&& row.store@ == store_wording(game.store)
    &&& row.store_kind == game.store
    &&& row.root == game.root
    &&& row.dlls == game.dlls.len()
    &&& row.dlss_version == newest_dlss(game.dlls@)
    &&& row.dlss_upgrades == 0
    &&& row.upgrades == 0
    &&& row.has_unknown == some_version_unknown(game.dlls@)
    &&& row.last_operation is None
    &&& row.details == game.dlls
    &&& row.inspection_errors == game.inspection_errors
    &&& match row.known_risk {
        Some(risk) => game_risk(game.name@, game.root@) == Some(risk@),
        None => game_risk(game.name@, game.root@) is None,
    }
}

impl GameRow {
    /// The row of a game as it was found.
    pub fn from_install(game: GameInstall) -> (row: GameRow)
        ensures
            is_row_of(row, game),
    {
        let known_risk = known_game_risk(&game);
        let dlls: usize = game.dlls.len();
        let mut has_unknown = false;
        let mut dlss_version: Option<DllVersion> = None;
        let mut at: usize = 0;
        while at < dlls
            invariant
                at <= dlls == game.dlls.len(),
                has_unknown == some_version_unknown(game.dlls@.take(at as int)),
                dlss_version == newest_dlss(game.dlls@.take(at as int)),
            decreases dlls - at,
        {
            let dll = &game.dlls[at];
            let super_resolution = match DllKind::classify(&dll.file_name) {
                Some(DllKind::DlssSuperResolution) => true,
                _ => false,
            };
            let ghost before = game.dlls@.take(at as int);
            let ghost more = game.dlls@.take(at + 1);
            proof {
                assert(more.drop_last() =~= before);
                assert(forall|i: int| 0 <= i < at ==> more[i] == before[i]);
                assert(more[at as int] == *dll);
                if some_version_unknown(before) {
                    let i = choose|i: int|
                        0 <= i < before.len() && (#[trigger] before[i]).metadata.version is None;
                    assert(more[i].metadata.version is None);
                }
                if some_version_unknown(more) && dll.metadata.version is Some {
                    let i = choose|i: int|
                        0 <= i < more.len() && (#[trigger] more[i]).metadata.version is None;
                    assert(before[i].metadata.version is None);
                }
            }
            match dll.metadata.version {
                Some(version) => {
                    if super_resolution {
                        let newer = match dlss_version {
                            Some(best) => best.is_older_than(&version),
                            None => true,
                        };
                        if newer {
                            dlss_version = Some(version);
                        }
                    }
                },
                None => {
                    has_unknown = true;
                },
            }
            at += 1;
        }
        proof {
            assert(game.dlls@.take(at as int) =~= game.dlls@);
        }
        GameRow {
            id: game.id,
            selected: false,
            name: game.name,
            store: store_label(game.store),
            store_kind: game.store,
            root: game.root,
            dlls,
            dlss_version,
            dlss_upgrades: 0,
            upgrades: 0,
            has_unknown,
            last_operation: None,
            details: game.dlls,
            inspection_errors: game.inspection_errors,
            known_risk,
        }
    }
}

/// The version that a row shows is that of a super resolution DLL of the game,
/// and no such DLL is newer.
pub proof fn rows_show_the_newest_dlss(dlls: Seq<DllInstallation>)
    ensures
        forall|i: int|
            0 <= i < dlls.len() && is_super_resolution(#[trigger] dlls[i]) ==> match (
                dlls[i].metadata.version,
                newest_dlss(dlls),
            ) {
                (Some(version), Some(newest)) => !version_less(newest, version),
                (Some(_), None) => false,
                (None, _) => true,
            },
        newest_dlss(dlls) matches Some(newest) ==> exists|i: int|
            0 <= i < dlls.len() && is_super_resolution(#[trigger] dlls[i])
                && dlls[i].metadata.version == Some(newest),
    decreases dlls.len(),
{
    if dlls.len() > 0 {
        let shorter = dlls.drop_last();
        rows_show_the_newest_dlss(shorter);
        assert forall|i: int|
            0 <= i < dlls.len() && is_super_resolution(#[trigger] dlls[i]) implies match (
            dlls[i].metadata.version,
            newest_dlss(dlls),
        ) {
            (Some(version), Some(newest)) => !version_less(newest, version),
            (Some(_), None) => false,
            (None, _) => true,
        } by {
            if i < shorter.len() {
                assert(shorter[i] == dlls[i]);
            }
        }
        if let Some(newest) = newest_dlss(dlls) {
            if newest_dlss(shorter) == Some(newest) {
                let i = choose|i: int|
                    0 <= i < shorter.len() && is_super_resolution(#[trigger] shorter[i])
                        && shorter[i].metadata.version == Some(newest);
                assert(dlls[i] == shorter[i]);
            } else {
                assert(is_super_resolution(dlls[dlls.len() - 1]));
            }
        }
    }
}

/// What a row tells the user.
#[derive(Clone, Copy, Debug, PartialEq, Eq, PartialOrd, Ord, Structural)]
pub enum RowStatus {
    /// A DLL of the DLSS family has a newer official build.
    UpdateAvailable,
    /// The latest release is not downloaded, so nothing can be compared.
    NotChecked,
    /// Some files could not be read.
    Problem,
    /// DLSS is current, but other DLLs have newer builds.
    OptionalUpdates,
    /// A DLL has no readable version.
    VersionUnknown,
    UpToDate,
    NoDlls,
}

/// The meaning of [`row_status`].
pub open spec fn status_of(game: GameRow, latest_ready: bool) -> RowStatus {
    if game.inspection_errors > 0 {
        RowStatus::Problem
    } else if game.dlls == 0 {
        RowStatus::NoDlls
    } else if !latest_ready {
        RowStatus::NotChecked
    } else if game.dlss_upgrades > 0 {
        RowStatus::UpdateAvailable
    } else if game.upgrades > 0 {
        RowStatus::OptionalUpdates
    } else if game.has_unknown {
        RowStatus::VersionUnknown
    } else {
        RowStatus::UpToDate
    }
}

/// The status of a row. Nothing is up to date before there is a release to
/// compare with.
pub fn row_status(game: &GameRow, latest_ready: bool) -> (status: RowStatus)
    ensures
        status == status_of(*game, latest_ready),
{
    if game.inspection_errors > 0 {
        RowStatus::Problem
    } else if game.dlls == 0 {
        RowStatus::NoDlls
    } else if !latest_ready {
        RowStatus::NotChecked
    } else if game.dlss_upgrades > 0 {
        RowStatus::UpdateAvailable
    } else if game.upgrades > 0 {
        RowStatus::OptionalUpdates
    } else if game.has_unknown {
        RowStatus::VersionUnknown
    } else {
        RowStatus::UpToDate
    }
}

/// Where a status stands in the order of the status column: things to act on
/// first, then things to look at, then things that need nothing.
pub open spec fn status_rank(status: RowStatus) -> int {
    match status {
        RowStatus::UpdateAvailable => 0,
        RowStatus::NotChecked => 1,
        RowStatus::Problem => 2,
        RowStatus::OptionalUpdates => 3,
        RowStatus::VersionUnknown => 4,
        RowStatus::UpToDate => 5,
        RowStatus::NoDlls => 6,
    }
}

fn rank_of(status: RowStatus) -> (rank: u128)
    ensures
        rank == status_rank(status),
{
    match status {
        RowStatus::UpdateAvailable => 0,
        RowStatus::NotChecked => 1,
        RowStatus::Problem => 2,
        RowStatus::OptionalUpdates => 3,
        RowStatus::VersionUnknown => 4,
        RowStatus::UpToDate => 5,
        RowStatus::NoDlls => 6,
    }
}

/// The columns by which the library can be sorted.
#[derive(Clone, Copy, Debug, PartialEq, Eq, Structural)]
pub enum SortKey {
    Name,
    Store,
    Dlls,
    DlssVersion,
    Status,
}

/// How the library is sorted.
#[derive(Clone, Copy, Debug, PartialEq, Eq, Structural)]
pub struct GameSort {
    pub key: SortKey,
    pub ascending: bool,
}

/// Behind every version number.
pub const NO_VERSION: u128 = 18446744073709551616;

/// What a row is sorted by, given its name in lower case. A missing version
/// comes behind all others, whichever way the versions are sorted.
pub open spec fn sort_key(
    game: GameRow,
    folded: Seq<char>,
    sort: GameSort,
    latest_ready: bool,
) -> KeyModel {
    match sort.key {
        SortKey::Name => KeyModel { number: 0, first: folded, second: Seq::empty() },
        SortKey::Store => KeyModel { number: 0, first: game.store@, second: folded },
        SortKey::Dlls => KeyModel { number: game.dlls as int, first: folded, second: Seq::empty() },
        SortKey::DlssVersion => KeyModel {
            number: match game.dlss_version {
                Some(version) => if sort.ascending {
                    version_number(version)
                } else {
                    u64::MAX - version_number(version)
                },
                None => NO_VERSION as int,
            },
            first: folded,
            second: Seq::empty(),
        },
        SortKey::Status => KeyModel {
            number: status_rank(status_of(game, latest_ready)),
            first: folded,
            second: Seq::empty(),
        },
    }
}

/// Whether the rows go from the highest key to the lowest. The order of the
/// versions is in the keys.
pub open spec fn sorts_down(sort: GameSort) -> bool {
    sort.key != SortKey::DlssVersion && !sort.ascending
}

/// What a row is sorted by, given its name in lower case.
pub fn row_key(game: &GameRow, folded: &str, sort: GameSort, latest_ready: bool) -> (key: OrderKey)
    ensures
        key@ == sort_key(*game, folded@, sort, latest_ready),
{
    let folded = chars_of(folded);
    let key = match sort.key {
        SortKey::Name => OrderKey { number: 0, first: folded, second: Vec::new() },
        SortKey::Store => OrderKey { number: 0, first: chars_of(game.store), second: folded },
        SortKey::Dlls => OrderKey { number: game.dlls as u128, first: folded, second: Vec::new() },
        SortKey::DlssVersion => {
            let number: u128 = match game.dlss_version {
                Some(version) => {
                    proof {
                        crate::model::version_numbers_keep_order(version, version);
                    }
                    if sort.ascending {
                        version.number() as u128
                    } else {
                        (u64::MAX - version.number()) as u128
                    }
                },
                None => NO_VERSION,
            };
            OrderKey { number, first: folded, second: Vec::new() }
        },
        SortKey::Status => OrderKey {
            number: rank_of(row_status(game, latest_ready)),
            first: folded,
            second: Vec::new(),
        },
    };
    proof {
        if sort.key != SortKey::Store {
            assert(key.second@ =~= Seq::<char>::empty());
        }
    }
    key
}

/// What the rows at the positions `rows` are sorted by.
pub open spec fn sort_keys(
    rows: Seq<usize>,
    games: Seq<GameRow>,
    sort: GameSort,
    latest_ready: bool,
) -> Seq<KeyModel> {
    rows.map_values(
        |row: usize|
            sort_key(games[row as int], lowercase(games[row as int].name@), sort, latest_ready),
    )
}

/// The rows of `before` in the order of the positions `order`.
pub open spec fn rearranged(before: Seq<usize>, order: Seq<usize>) -> Seq<usize> {
    order.map_values(|at: usize| before[at as int])
}

/// Whether `after` holds the rows of `before`, sorted. Rows that are sorted by
/// the same keep their order.
pub open spec fn is_sorted_as(
    before: Seq<usize>,
    games: Seq<GameRow>,
    sort: GameSort,
    latest_ready: bool,
    after: Seq<usize>,
) -> bool {
    exists|order: Seq<usize>|
        #![trigger rearranged(before, order)]
        is_stable_order(sort_keys(before, games, sort, latest_ready), sorts_down(sort), order)
            && after == rearranged(before, order)
}

/// Sorts rows of the library, whatever the case of the names.
pub fn sort_rows(rows: &mut Vec<usize>, games: &[GameRow], sort: GameSort, latest_ready: bool)
    requires
        forall|i: int| 0 <= i < old(rows).len() ==> #[trigger] old(rows)@[i] < games@.len(),
    ensures
        is_sorted_as(old(rows)@, games@, sort, latest_ready, final(rows)@),
        final(rows).len() == old(rows).len(),
        forall|i: int| 0 <= i < final(rows).len() ==> #[trigger] final(rows)@[i] < games@.len(),
{
    let ghost before = rows@;
    let ghost models = sort_keys(before, games@, sort, latest_ready);
    let mut keys: Vec<OrderKey> = Vec::new();
    let mut at: usize = 0;
    while at < rows.len()
        invariant
            at <= rows.len(),
            rows@ == before,
            models == sort_keys(before, games@, sort, latest_ready),
            forall|i: int| 0 <= i < before.len() ==> #[trigger] before[i] < games@.len(),
            keys.len() == at,
            forall|i: int| 0 <= i < at ==> (#[trigger] keys@[i])@ == models[i],
        decreases rows.len() - at,
    {
        proof {
            assert(before[at as int] < games@.len());
        }
        let game = &games[rows[at]];
        let folded = game.name.as_str().to_lowercase();
        keys.push(row_key(game, &folded, sort, latest_ready));
        at += 1;
    }
    proof {
        assert(keys@.map_values(|key: OrderKey| key@) =~= models);
    }
    let descending = match sort.key {
        SortKey::DlssVersion => false,
        _ => !sort.ascending,
    };
    let order = stable_order(&keys, descending);
    let mut sorted: Vec<usize> = Vec::new();
    let mut next: usize = 0;
    while next < order.len()
        invariant
            next <= order.len(),
            order.len() == before.len(),
            rows@ == before,
            models.len() == before.len(),
            is_stable_order(models, descending, order@),
            sorted.len() == next,
            forall|i: int|
                0 <= i < next ==> #[trigger] sorted@[i] == rearranged(before, order@)[i],
        decreases order.len() - next,
    {
        proof {
            assert(order@[next as int] < models.len());
        }
        sorted.push(rows[order[next]]);
        next += 1;
    }
    proof {
        assert(sorted@ =~= rearranged(before, order@));
        assert forall|i: int| 0 <= i < sorted.len() implies #[trigger] sorted@[i] < games@.len() by {
            assert(order@[i] < models.len());
            assert(before[order@[i] as int] < games@.len());
        }
    }
    *rows = sorted;
}

/// Two ways to sort the same rows agree.
pub proof fn sorting_has_one_outcome(
    before: Seq<usize>,
    games: Seq<GameRow>,
    sort: GameSort,
    latest_ready: bool,
    one: Seq<usize>,
    two: Seq<usize>,
)
    requires
        is_sorted_as(before, games, sort, latest_ready, one),
        is_sorted_as(before, games, sort, latest_ready, two),
    ensures
        one == two,
{
    let keys = sort_keys(before, games, sort, latest_ready);
    let first = choose|order: Seq<usize>|
        #![trigger rearranged(before, order)]
        is_stable_order(keys, sorts_down(sort), order) && one == rearranged(before, order);
    let second = choose|order: Seq<usize>|
        #![trigger rearranged(before, order)]
        is_stable_order(keys, sorts_down(sort), order) && two == rearranged(before, order);
    crate::order::stable_order_is_unique(keys, sorts_down(sort), first, second);
}

/// Sorted by version, the games without one come last, whichever way the
/// versions go.
pub proof fn missing_versions_come_last(
    before: Seq<usize>,
    games: Seq<GameRow>,
    sort: GameSort,
    latest_ready: bool,
    after: Seq<usize>,
    early: int,
    late: int,
)
    requires
        sort.key == SortKey::DlssVersion,
        is_sorted_as(before, games, sort, latest_ready, after),
        0 <= early < late < after.len(),
        games[after[early] as int].dlss_version is None,
    ensures
        games[after[late] as int].dlss_version is None,
{
    let keys = sort_keys(before, games, sort, latest_ready);
    let order = choose|order: Seq<usize>|
        #![trigger rearranged(before, order)]
        is_stable_order(keys, sorts_down(sort), order) && after == rearranged(before, order);
    let one = order[early] as int;
    let two = order[late] as int;
    assert(crate::order::goes_before(keys, false, one, two));
    assert(keys[one].number == NO_VERSION);
    if let Some(version) = games[after[late] as int].dlss_version {
        crate::model::version_numbers_keep_order(version, version);
        assert(keys[two].number < NO_VERSION);
    }
}

/// Sorted by version, of two games with versions the older comes first if the
/// versions go up, and the newer if they go down.
pub proof fn versions_are_in_order(
    before: Seq<usize>,
    games: Seq<GameRow>,
    sort: GameSort,
    latest_ready: bool,
    after: Seq<usize>,
    early: int,
    late: int,
)
    requires
        sort.key == SortKey::DlssVersion,
        is_sorted_as(before, games, sort, latest_ready, after),
        0 <= early < late < after.len(),
    ensures
        (games[after[early] as int].dlss_version, games[after[late] as int].dlss_version) matches (
            Some(one),
            Some(two),
        ) ==> if sort.ascending {
            !version_less(two, one)
        } else {
            !version_less(one, two)
        },
{
    let keys = sort_keys(before, games, sort, latest_ready);
    let order = choose|order: Seq<usize>|
        #![trigger rearranged(before, order)]
        is_stable_order(keys, sorts_down(sort), order) && after == rearranged(before, order);
    let one = order[early] as int;
    let two = order[late] as int;
    assert(crate::order::goes_before(keys, false, one, two));
    assert(keys[one].number <= keys[two].number);
    match (games[after[early] as int].dlss_version, games[after[late] as int].dlss_version) {
        (Some(left), Some(right)) => {
            crate::model::version_numbers_keep_order(left, right);
            crate::model::version_numbers_keep_order(right, left);
        },
        _ => {},
    }
}

/// Sorted by status and up, things to act on come before things that need
/// nothing.
pub proof fn statuses_are_in_order(
    before: Seq<usize>,
    games: Seq<GameRow>,
    sort: GameSort,
    latest_ready: bool,
    after: Seq<usize>,
    early: int,
    late: int,
)
    requires
        sort.key == SortKey::Status,
        sort.ascending,
        is_sorted_as(before, games, sort, latest_ready, after),
        0 <= early < late < after.len(),
    ensures
        status_rank(status_of(games[after[early] as int], latest_ready)) <= status_rank(
            status_of(games[after[late] as int], latest_ready),
        ),
{
    let keys = sort_keys(before, games, sort, latest_ready);
    let order = choose|order: Seq<usize>|
        #![trigger rearranged(before, order)]
        is_stable_order(keys, sorts_down(sort), order) && after == rearranged(before, order);
    let one = order[early] as int;
    let two = order[late] as int;
    assert(crate::order::goes_before(keys, false, one, two));
    assert(keys[one].number <= keys[two].number);
}

/// What the title of a column asks for when it is clicked: to sort by it and
/// up, or, if it is up already, down.
pub fn next_sort(key: SortKey, sort: GameSort) -> (next: GameSort)
    ensures
        next == (GameSort { key, ascending: sort.key != key || !sort.ascending }),
{
    GameSort { key, ascending: sort.key != key || !sort.ascending }
}

/// What the title of a column says about itself.
pub fn sort_hint(key: SortKey, sort: GameSort) -> (hint: &'static str)
    ensures
        hint@ == if sort.key != key {
            "not sorted; activate to sort ascending"@
        } else if sort.ascending {
            "ascending; activate to sort descending"@
        } else {
            "descending; activate to sort ascending"@
        },
{
    if sort.key != key {
        "not sorted; activate to sort ascending"
    } else if sort.ascending {
        "ascending; activate to sort descending"
    } else {
        "descending; activate to sort ascending"
    }
}

/// The glyph that shows by which column and in which direction the library is
/// sorted.
pub fn sort_marker(key: SortKey, sort: GameSort) -> (marker: Option<&'static str>)
    ensures
        match marker {
            Some(marker) => sort.key == key && marker@ == if sort.ascending {
                icons::CARET_UP@
            } else {
                icons::CARET_DOWN@
            },
            None => sort.key != key,
        },
{
    if sort.key == key {
        if sort.ascending {
            Some(icons::CARET_UP)
        } else {
            Some(icons::CARET_DOWN)
        }
    } else {
        None
    }
}

/// Whether a row is that of the game with the identifier `id`.
pub open spec fn is_row_for(games: Seq<GameRow>, id: Seq<char>) -> spec_fn(usize) -> bool {
    |row: usize| games[row as int].id@ == id
}

/// The position in `rows` of the row of a game, or the number of rows.
pub open spec fn row_of(rows: Seq<usize>, games: Seq<GameRow>, id: Seq<char>) -> int {
    first_where(rows, is_row_for(games, id))
}

/// The visible rows from the row of the anchor to the clicked one, as positions
/// in `rows`; none if the anchor is not visible.
pub open spec fn span(
    rows: Seq<usize>,
    games: Seq<GameRow>,
    anchor: Option<Seq<char>>,
    clicked: int,
) -> Option<(int, int)> {
    match anchor {
        Some(anchor) => {
            let from = row_of(rows, games, anchor);
            if from < rows.len() {
                Some(
                    if from <= clicked {
                        (from, clicked)
                    } else {
                        (clicked, from)
                    },
                )
            } else {
                None
            }
        },
        None => None,
    }
}

fn selection_span(
    rows: &[usize],
    games: &[GameRow],
    anchor: Option<&GameId>,
    clicked: usize,
) -> (range: Option<(usize, usize)>)
    requires
        forall|i: int| 0 <= i < rows@.len() ==> #[trigger] rows@[i] < games@.len(),
    ensures
        match range {
            Some((from, to)) => span(
                rows@,
                games@,
                match anchor {
                    Some(anchor) => Some(anchor@),
                    None => None,
                },
                clicked as int,
            ) == Some((from as int, to as int)),
            None => span(
                rows@,
                games@,
                match anchor {
                    Some(anchor) => Some(anchor@),
                    None => None,
                },
                clicked as int,
            ) is None,
        },
{
    let wanted_id = match anchor {
        Some(id) => id,
        None => {
            return None;
        },
    };
    let ghost wanted = is_row_for(games@, wanted_id@);
    let mut at: usize = 0;
    while at < rows.len()
        invariant
            at <= rows@.len(),
            anchor == Some(wanted_id),
            forall|i: int| 0 <= i < rows@.len() ==> #[trigger] rows@[i] < games@.len(),
            wanted == is_row_for(games@, wanted_id@),
            forall|i: int| 0 <= i < at ==> !wanted(#[trigger] rows@[i]),
        decreases rows@.len() - at,
    {
        proof {
            assert(rows@[at as int] < games@.len());
        }
        if games[rows[at]].id.same(wanted_id) {
            proof {
                first_is(rows@, wanted, at as int);
            }
            return if at <= clicked {
                Some((at, clicked))
            } else {
                Some((clicked, at))
            };
        }
        at += 1;
    }
    proof {
        first_is(rows@, wanted, at as int);
    }
    None
}

/// The visible rows from the anchor of a range to the clicked row, as positions
/// in `rows`. The anchor is a game, because sorting moves rows.
pub fn selection_range(
    rows: &[usize],
    games: &[GameRow],
    anchor: Option<&GameId>,
    clicked: usize,
) -> (range: Option<std::ops::RangeInclusive<usize>>)
    requires
        forall|i: int| 0 <= i < rows@.len() ==> #[trigger] rows@[i] < games@.len(),
    ensures
        match range {
            Some(range) => !range@.exhausted && span(
                rows@,
                games@,
                match anchor {
                    Some(anchor) => Some(anchor@),
                    None => None,
                },
                clicked as int,
            ) == Some((range@.start as int, range@.end as int)),
            None => span(
                rows@,
                games@,
                match anchor {
                    Some(anchor) => Some(anchor@),
                    None => None,
                },
                clicked as int,
            ) is None,
        },
{
    match selection_span(rows, games, anchor, clicked) {
        Some((from, to)) => Some(std::ops::RangeInclusive::new(from, to)),
        None => None,
    }
}

/// A row that is selected or not, as asked; a game without DLLs never is.
pub open spec fn selecting(row: GameRow, selected: bool) -> GameRow {
    GameRow { selected: selected && row.dlls > 0, ..row }
}

/// Whether the row `index` is one of `rows`.
pub open spec fn is_among(rows: Seq<usize>, index: int) -> bool {
    exists|i: int| 0 <= i < rows.len() && #[trigger] rows[i] == index
}

/// Whether the row `index` is meant by `rows`; all rows are if there is no
/// list.
pub open spec fn is_meant(rows: Option<Seq<usize>>, index: int) -> bool {
    match rows {
        Some(rows) => is_among(rows, index),
        None => true,
    }
}

proof fn more_are_among(rows: Seq<usize>, at: int, index: int)
    requires
        0 <= at < rows.len(),
    ensures
        is_among(rows.take(at + 1), index) == (is_among(rows.take(at), index) || index
            == rows[at]),
{
    let done = rows.take(at);
    let more = rows.take(at + 1);
    if is_among(done, index) {
        let k = choose|k: int| 0 <= k < done.len() && #[trigger] done[k] == index;
        assert(more[k] == index);
    }
    if index == rows[at] {
        assert(more[at] == index);
    }
    if is_among(more, index) {
        let k = choose|k: int| 0 <= k < more.len() && #[trigger] more[k] == index;
        if k < at {
            assert(done[k] == index);
        }
    }
}

/// Selects or clears rows of the library, or all of them. A game without DLLs
/// has nothing to update and is never selected.
pub fn set_selection(games: &mut Vec<GameRow>, selected: bool, rows: Option<&[usize]>)
    requires
        rows matches Some(rows) ==> forall|i: int|
            0 <= i < rows@.len() ==> #[trigger] rows@[i] < old(games).len(),
    ensures
        final(games).len() == old(games).len(),
        forall|i: int|
            0 <= i < final(games).len() ==> #[trigger] final(games)@[i] == if is_meant(
                match rows {
                    Some(rows) => Some(rows@),
                    None => None,
                },
                i,
            ) {
                selecting(old(games)@[i], selected)
            } else {
                old(games)@[i]
            },
{
    let ghost before = games@;
    match rows {
        Some(rows) => {
            let mut at: usize = 0;
            while at < rows.len()
                invariant
                    at <= rows@.len(),
                    games.len() == before.len(),
                    forall|i: int| 0 <= i < rows@.len() ==> #[trigger] rows@[i] < before.len(),
                    forall|i: int|
                        0 <= i < before.len() ==> #[trigger] games@[i] == if is_among(
                            rows@.take(at as int),
                            i,
                        ) {
                            selecting(before[i], selected)
                        } else {
                            before[i]
                        },
                decreases rows@.len() - at,
            {
                let index: usize = rows[at];
                let choice = selected && games[index].dlls > 0;
                games[index].selected = choice;
                proof {
                    assert forall|i: int| 0 <= i < before.len() implies is_among(
                        rows@.take(at + 1),
                        i,
                    ) == (#[trigger] is_among(rows@.take(at as int), i) || i == index) by {
                        more_are_among(rows@, at as int, i);
                    }
                }
                at += 1;
            }
            proof {
                assert(rows@.take(at as int) =~= rows@);
            }
        },
        None => {
            let mut at: usize = 0;
            while at < games.len()
                invariant
                    at <= games.len(),
                    games.len() == before.len(),
                    forall|i: int|
                        0 <= i < before.len() ==> #[trigger] games@[i] == if i < at {
                            selecting(before[i], selected)
                        } else {
                            before[i]
                        },
                decreases games.len() - at,
            {
                let choice = selected && games[at].dlls > 0;
                games[at].selected = choice;
                at += 1;
            }
        },
    }
}

/// A click on the box of a row.
#[derive(Clone, Copy, Debug, PartialEq, Eq, Structural)]
pub struct Toggle {
    /// The position of the row among those shown.
    pub position: usize,
    pub selected: bool,
    /// Whether everything from the anchor on is meant.
    pub extend: bool,
}

/// The rows that a click means, as positions.
pub open spec fn toggled_span(
    rows: Seq<usize>,
    games: Seq<GameRow>,
    anchor: Option<Seq<char>>,
    toggle: Toggle,
) -> (int, int) {
    match span(rows, games, anchor, toggle.position as int) {
        Some(range) => if toggle.extend {
            range
        } else {
            (toggle.position as int, toggle.position as int)
        },
        None => (toggle.position as int, toggle.position as int),
    }
}

/// Selects or clears what a click means, and makes the clicked game the anchor
/// of the next range.
pub fn apply_toggle(
    games: &mut Vec<GameRow>,
    anchor: &mut Option<GameId>,
    rows: &[usize],
    toggle: Toggle,
)
    requires
        forall|i: int| 0 <= i < rows@.len() ==> #[trigger] rows@[i] < old(games).len(),
        toggle.position < rows@.len(),
    ensures
        *final(anchor) == Some(old(games)@[rows@[toggle.position as int] as int].id),
        final(games).len() == old(games).len(),
        ({
            let (from, to) = toggled_span(
                rows@,
                old(games)@,
                match *old(anchor) {
                    Some(anchor) => Some(anchor@),
                    None => None,
                },
                toggle,
            );
            forall|i: int|
                0 <= i < final(games).len() ==> #[trigger] final(games)@[i] == if is_among(
                    rows@.subrange(from, to + 1),
                    i,
                ) {
                    selecting(old(games)@[i], toggle.selected)
                } else {
                    old(games)@[i]
                }
        }),
{
    let range = if toggle.extend {
        selection_span(
            rows,
            games.as_slice(),
            match &*anchor {
                Some(anchor) => Some(anchor),
                None => None,
            },
            toggle.position,
        )
    } else {
        None
    };
    let (from, to) = match range {
        Some(range) => range,
        None => (toggle.position, toggle.position),
    };
    proof {
        if let Some(anchor) = *old(anchor) {
            crate::lists::first_is_wanted(rows@, is_row_for(old(games)@, anchor@));
        }
        assert(rows@[toggle.position as int] < games.len());
    }
    let mut meant: Vec<usize> = Vec::new();
    let mut at: usize = from;
    while at <= to
        invariant
            from <= at <= to + 1,
            to < rows@.len(),
            meant@ == rows@.subrange(from as int, at as int),
        decreases to + 1 - at,
    {
        meant.push(rows[at]);
        at += 1;
        proof {
            assert(meant@ =~= rows@.subrange(from as int, at as int));
        }
    }
    proof {
        assert forall|i: int| 0 <= i < meant.len() implies #[trigger] meant@[i] < games.len() by {
            assert(meant@[i] == rows@[from + i]);
        }
    }
    let clicked = games[rows[toggle.position]].id.clone();
    set_selection(games, toggle.selected, Some(meant.as_slice()));
    *anchor = Some(clicked);
}

/// The tabs of the library.
#[derive(Clone, Copy, Debug, PartialEq, Eq, Structural)]
pub enum GameFilter {
    Updates,
    WithDlls,
    All,
    Staged,
    Problems,
    Recent,
}

/// The stores by which the library can be narrowed down.
#[derive(Clone, Copy, Debug, PartialEq, Eq, Structural)]
pub enum StoreFilter {
    All,
    Steam,
    Epic,
    Gog,
    Manual,
}

/// What the library shows, and in what order.
#[derive(Debug, PartialEq, Eq)]
pub struct LibraryFilter {
    pub search: String,
    pub tab: GameFilter,
    pub store: StoreFilter,
    pub sort: GameSort,
}

/// Whether a list holds the identifier of a game.
pub open spec fn holds_game(ids: Seq<GameId>, id: Seq<char>) -> bool {
    exists|i: int| 0 <= i < ids.len() && (#[trigger] ids[i])@ == id
}

/// Decides [`holds_game`].
pub fn contains_game(ids: &[GameId], id: &GameId) -> (found: bool)
    ensures
        found == holds_game(ids@, id@),
{
    let mut at: usize = 0;
    while at < ids.len()
        invariant
            at <= ids@.len(),
            forall|i: int| 0 <= i < at ==> (#[trigger] ids@[i])@ != id@,
        decreases ids@.len() - at,
    {
        if ids[at].same(id) {
            return true;
        }
        at += 1;
    }
    false
}

/// Whether a game belongs on a tab, given the games with staged changes. A game
/// with unreadable files may well have DLLs and stays in view.
pub open spec fn in_tab(game: GameRow, tab: GameFilter, staged: Seq<GameId>) -> bool {
    match tab {
        GameFilter::All => true,
        GameFilter::WithDlls => game.dlls > 0 || game.inspection_errors > 0,
        GameFilter::Updates => game.upgrades > 0,
        GameFilter::Staged => holds_game(staged, game.id@),
        GameFilter::Problems => game.inspection_errors > 0 || game.has_unknown,
        GameFilter::Recent => game.last_operation is Some,
    }
}

/// Whether a game belongs on a tab, given the games with staged changes.
pub fn matches_tab(game: &GameRow, tab: GameFilter, staged: &[GameId]) -> (shown: bool)
    ensures
        shown == in_tab(*game, tab, staged@),
{
    match tab {
        GameFilter::All => true,
        GameFilter::WithDlls => game.dlls > 0 || game.inspection_errors > 0,
        GameFilter::Updates => game.upgrades > 0,
        GameFilter::Staged => contains_game(staged, &game.id),
        GameFilter::Problems => game.inspection_errors > 0 || game.has_unknown,
        GameFilter::Recent => game.last_operation.is_some(),
    }
}

/// Whether a search finds a game, all in lower case: in its name or in that of
/// its store. An empty search finds every game.
pub open spec fn found_by(name: Seq<char>, store: Seq<char>, search: Seq<char>) -> bool {
    search.len() == 0 || occurs(name, search) || occurs(store, search)
}

/// Whether a search finds a game, all in lower case.
pub fn search_finds(name: &str, store: &str, search: &str) -> (found: bool)
    ensures
        found == found_by(name@, store@, search@),
{
    let search = chars_of(search);
    if search.len() == 0 {
        return true;
    }
    holds_part(&chars_of(name), &search) || holds_part(&chars_of(store), &search)
}

/// Whether a game comes from a store that is shown.
pub open spec fn in_store(store: StoreKind, filter: StoreFilter) -> bool {
    match filter {
        StoreFilter::All => true,
        StoreFilter::Steam => store == StoreKind::Steam,
        StoreFilter::Epic => store == StoreKind::Epic,
        StoreFilter::Gog => store == StoreKind::Gog,
        StoreFilter::Manual => store == StoreKind::Manual,
    }
}

/// Whether a game comes from a store that is shown.
pub fn matches_store(store: StoreKind, filter: StoreFilter) -> (shown: bool)
    ensures
        shown == in_store(store, filter),
{
    match filter {
        StoreFilter::All => true,
        StoreFilter::Steam => store == StoreKind::Steam,
        StoreFilter::Epic => store == StoreKind::Epic,
        StoreFilter::Gog => store == StoreKind::Gog,
        StoreFilter::Manual => store == StoreKind::Manual,
    }
}

/// Whether a game passes the search, given in lower case, and the store filter.
pub open spec fn passes(game: GameRow, search: Seq<char>, store: StoreFilter) -> bool {
    found_by(lowercase(game.name@), lowercase(game.store@), search) && in_store(
        game.store_kind,
        store,
    )
}

/// Whether a game passes the search, given in lower case, and the store filter.
pub fn matches_search_and_store(game: &GameRow, search: &str, store: StoreFilter) -> (shown: bool)
    ensures
        shown == passes(*game, search@, store),
{
    let name = game.name.as_str().to_lowercase();
    let origin = game.store.to_lowercase();
    search_finds(&name, &origin, search) && matches_store(game.store_kind, store)
}

/// Whether something other than what is installed is staged for a DLL.
pub open spec fn is_staged(profile: TargetProfile, id: Seq<char>) -> bool {
    profile.staged(id) matches Some(desired) && desired !is KeepInstalled
}

/// Decides [`is_staged`].
pub fn has_staged(profile: &TargetProfile, dll: &DllInstallation) -> (staged: bool)
    ensures
        staged == is_staged(*profile, dll.id@),
{
    match profile.get(&dll.id) {
        Some(DesiredDll::KeepInstalled) => false,
        Some(_) => true,
        None => false,
    }
}

/// Whether a change is staged for some DLL of a game.
pub open spec fn game_is_staged(profile: TargetProfile, dlls: Seq<DllInstallation>) -> bool {
    exists|i: int| 0 <= i < dlls.len() && is_staged(profile, (#[trigger] dlls[i]).id@)
}

/// The identifiers of the games with staged changes, in their order.
pub open spec fn staged_ids(games: Seq<GameRow>, profile: TargetProfile) -> Seq<GameId>
    decreases games.len(),
{
    if games.len() == 0 {
        Seq::empty()
    } else {
        let before = staged_ids(games.drop_last(), profile);
        if game_is_staged(profile, games.last().details@) {
            before.push(games.last().id)
        } else {
            before
        }
    }
}

/// The games with staged changes.
pub fn staged_games(games: &[GameRow], profile: &TargetProfile) -> (staged: Vec<GameId>)
    ensures
        staged@ == staged_ids(games@, *profile),
{
    let mut staged: Vec<GameId> = Vec::new();
    let mut at: usize = 0;
    while at < games.len()
        invariant
            at <= games@.len(),
            staged@ == staged_ids(games@.take(at as int), *profile),
        decreases games@.len() - at,
    {
        let game = &games[at];
        proof {
            assert(games@.take(at + 1).drop_last() =~= games@.take(at as int));
        }
        let mut found = false;
        let mut inner: usize = 0;
        while inner < game.details.len() && !found
            invariant
                inner <= game.details.len(),
                found ==> game_is_staged(*profile, game.details@),
                !found ==> forall|i: int|
                    0 <= i < inner ==> !is_staged(*profile, (#[trigger] game.details@[i]).id@),
            decreases game.details.len() - inner,
        {
            if has_staged(profile, &game.details[inner]) {
                found = true;
                proof {
                    assert(is_staged(*profile, game.details@[inner as int].id@));
                }
            }
            inner += 1;
        }
        if found {
            staged.push(game.id.clone());
        }
        at += 1;
    }
    proof {
        assert(games@.take(at as int) =~= games@);
    }
    staged
}

/// The positions of the games that are shown, in their order. The search is
/// given in lower case.
pub open spec fn shown_rows(
    games: Seq<GameRow>,
    search: Seq<char>,
    store: StoreFilter,
    tab: GameFilter,
    staged: Seq<GameId>,
) -> Seq<usize>
    decreases games.len(),
{
    if games.len() == 0 {
        Seq::empty()
    } else {
        let before = shown_rows(games.drop_last(), search, store, tab, staged);
        if passes(games.last(), search, store) && in_tab(games.last(), tab, staged) {
            before.push((games.len() - 1) as usize)
        } else {
            before
        }
    }
}

/// The rows that are shown, unsorted. The search is given in lower case.
pub fn visible_rows(
    games: &[GameRow],
    search: &str,
    store: StoreFilter,
    tab: GameFilter,
    staged: &[GameId],
) -> (rows: Vec<usize>)
    ensures
        rows@ == shown_rows(games@, search@, store, tab, staged@),
        rows.len() <= games@.len(),
        forall|i: int| 0 <= i < rows.len() ==> #[trigger] rows@[i] < games@.len(),
{
    let mut rows: Vec<usize> = Vec::new();
    let mut at: usize = 0;
    while at < games.len()
        invariant
            at <= games@.len(),
            rows@ == shown_rows(games@.take(at as int), search@, store, tab, staged@),
            rows.len() <= at,
            forall|i: int| 0 <= i < rows.len() ==> #[trigger] rows@[i] < at,
        decreases games@.len() - at,
    {
        proof {
            assert(games@.take(at + 1).drop_last() =~= games@.take(at as int));
        }
        if matches_search_and_store(&games[at], search, store) && matches_tab(
            &games[at],
            tab,
            staged,
        ) {
            rows.push(at);
        }
        at += 1;
    }
    proof {
        assert(games@.take(at as int) =~= games@);
    }
    rows
}

/// The rows that the library shows, sorted.
pub fn filtered_game_rows(
    games: &[GameRow],
    filter: &LibraryFilter,
    profile: &TargetProfile,
    latest_ready: bool,
) -> (rows: Vec<usize>)
    ensures
        is_sorted_as(
            shown_rows(
                games@,
                lowercase(filter.search@),
                filter.store,
                filter.tab,
                staged_ids(games@, *profile),
            ),
            games@,
            filter.sort,
            latest_ready,
            rows@,
        ),
        forall|i: int| 0 <= i < rows.len() ==> #[trigger] rows@[i] < games@.len(),
{
    let search = filter.search.as_str().to_lowercase();
    let staged = staged_games(games, profile);
    let mut rows = visible_rows(games, &search, filter.store, filter.tab, staged.as_slice());
    sort_rows(&mut rows, games, filter.sort, latest_ready);
    rows
}

/// The tabs, from left to right.
pub open spec fn tabs() -> Seq<GameFilter> {
    seq![
        GameFilter::Updates,
        GameFilter::WithDlls,
        GameFilter::All,
        GameFilter::Staged,
        GameFilter::Problems,
        GameFilter::Recent,
    ]
}

/// How many games each tab would show under the current search and store.
pub fn tab_counts(games: &[GameRow], filter: &LibraryFilter, profile: &TargetProfile) -> (counts:
    Vec<(GameFilter, usize)>)
    ensures
        counts.len() == tabs().len(),
        forall|i: int|
            0 <= i < counts.len() ==> {
                &&& (#[trigger] counts@[i]).0 == tabs()[i]
                &&& counts@[i].1 == shown_rows(
                    games@,
                    lowercase(filter.search@),
                    filter.store,
                    tabs()[i],
                    staged_ids(games@, *profile),
                ).len()
            },
{
    let search = filter.search.as_str().to_lowercase();
    let staged = staged_games(games, profile);
    let mut counts: Vec<(GameFilter, usize)> = Vec::new();
    let order = [
        GameFilter::Updates,
        GameFilter::WithDlls,
        GameFilter::All,
        GameFilter::Staged,
        GameFilter::Problems,
        GameFilter::Recent,
    ];
    let mut at: usize = 0;
    while at < 6
        invariant
            at <= 6,
            order@ =~= tabs(),
            search@ == lowercase(filter.search@),
            staged@ == staged_ids(games@, *profile),
            counts.len() == at,
            forall|i: int|
                0 <= i < at ==> {
                    &&& (#[trigger] counts@[i]).0 == tabs()[i]
                    &&& counts@[i].1 == shown_rows(
                        games@,
                        search@,
                        filter.store,
                        tabs()[i],
                        staged@,
                    ).len()
                },
        decreases 6 - at,
    {
        let tab = order[at];
        let rows = visible_rows(games, &search, filter.store, tab, staged.as_slice());
        counts.push((tab, rows.len()));
        at += 1;
    }
    counts
}

/// Whether a tab is offered: the first three always are, the others if there is
/// something on them or they are open.
pub fn offers_tab(tab: GameFilter, count: usize, open: GameFilter) -> (offered: bool)
    ensures
        offered == (tab == GameFilter::Updates || tab == GameFilter::WithDlls || tab
            == GameFilter::All || count > 0 || open == tab),
{
    let always = match tab {
        GameFilter::Updates | GameFilter::WithDlls | GameFilter::All => true,
        _ => false,
    };
    always || count > 0 || open == tab
}

/// What a tab is called, and what it says of itself.
pub fn tab_label(tab: GameFilter) -> (label: (&'static str, &'static str))
    ensures
        (label.0@, label.1@) == match tab {
            GameFilter::Updates => ("Updates"@, "Games with a newer official DLL"@),
            GameFilter::WithDlls => (
                "With DLLs"@,
                "Games that ship DLSS, Streamline, or Reflex DLLs"@,
            ),
            GameFilter::All => (
                "All"@,
                "Every game found, including those without NVIDIA DLLs"@,
            ),
            GameFilter::Staged => (
                "Staged"@,
                "Games with version changes waiting to be applied"@,
            ),
            GameFilter::Problems => (
                "Problems"@,
                "Games with files that could not be read or have no version"@,
            ),
            GameFilter::Recent => ("Changed"@, "Games updated or restored this session"@),
        },
{
    match tab {
        GameFilter::Updates => ("Updates", "Games with a newer official DLL"),
        GameFilter::WithDlls => (
            "With DLLs",
            "Games that ship DLSS, Streamline, or Reflex DLLs",
        ),
        GameFilter::All => ("All", "Every game found, including those without NVIDIA DLLs"),
        GameFilter::Staged => ("Staged", "Games with version changes waiting to be applied"),
        GameFilter::Problems => (
            "Problems",
            "Games with files that could not be read or have no version",
        ),
        GameFilter::Recent => ("Changed", "Games updated or restored this session"),
    }
}

/// What an empty library says: an icon, a title, an explanation, and what the
/// button that widens the view says, if there is one.
pub open spec fn emptiness(filter: LibraryFilter, latest_ready: bool) -> (
    Seq<char>,
    Seq<char>,
    Seq<char>,
    Option<Seq<char>>,
) {
    if filter.search@.len() > 0 {
        (
            icons::MAGNIFYING_GLASS@,
            "No games match \""@ + filter.search@ + "\""@,
            "Search looks at game and store names."@,
            Some("Clear search"@),
        )
    } else if filter.store != StoreFilter::All {
        (
            icons::GAME_CONTROLLER@,
            "No games from this store here"@,
            "Try another tab, or show every store."@,
            Some("Show all stores"@),
        )
    } else {
        match filter.tab {
            GameFilter::Updates => if latest_ready {
                (
                    icons::CHECK_CIRCLE@,
                    "Every game is up to date"@,
                    "Each NVIDIA DLL matches the latest official release."@,
                    None,
                )
            } else {
                (
                    icons::DOWNLOAD_SIMPLE@,
                    "Updates are not checked yet"@,
                    "Download the latest release above to compare versions."@,
                    None,
                )
            },
            GameFilter::WithDlls => (
                icons::GAME_CONTROLLER@,
                "None of your games ship NVIDIA DLLs"@,
                "Games without DLSS, Streamline, or Reflex files have nothing to update."@,
                Some("Show all games"@),
            ),
            GameFilter::Staged => (
                icons::LIST_CHECKS@,
                "No staged changes"@,
                "Open a game and choose a version for any DLL to stage it."@,
                None,
            ),
            GameFilter::Problems => (
                icons::CHECK_CIRCLE@,
                "No problems found"@,
                "Every DLL was read and has a version."@,
                None,
            ),
            GameFilter::Recent => (
                icons::CLOCK@,
                "Nothing changed yet"@,
                "Games you update or restore during this session appear here."@,
                None,
            ),
            GameFilter::All => (icons::GAME_CONTROLLER@, "No games"@, ""@, None),
        }
    }
}

/// What an empty library says, and the button that widens it again.
pub fn empty_filter_message(filter: &LibraryFilter, latest_ready: bool) -> (message: (
    &'static str,
    String,
    String,
    Option<&'static str>,
))
    ensures
        (message.0@, message.1@, message.2@, match message.3 {
            Some(action) => Some(action@),
            None => None,
        }) == emptiness(*filter, latest_ready),
{
    if !filter.search.as_str().is_empty() {
        return (
            icons::MAGNIFYING_GLASS,
            crate::text::join_three("No games match \"", &filter.search, "\""),
            "Search looks at game and store names.".to_owned(),
            Some("Clear search"),
        );
    }
    if filter.store != StoreFilter::All {
        return (
            icons::GAME_CONTROLLER,
            "No games from this store here".to_owned(),
            "Try another tab, or show every store.".to_owned(),
            Some("Show all stores"),
        );
    }
    match filter.tab {
        GameFilter::Updates => {
            if latest_ready {
                (
                    icons::CHECK_CIRCLE,
                    "Every game is up to date".to_owned(),
                    "Each NVIDIA DLL matches the latest official release.".to_owned(),
                    None,
                )
            } else {
                (
                    icons::DOWNLOAD_SIMPLE,
                    "Updates are not checked yet".to_owned(),
                    "Download the latest release above to compare versions.".to_owned(),
                    None,
                )
            }
        },
        GameFilter::WithDlls => (
            icons::GAME_CONTROLLER,
            "None of your games ship NVIDIA DLLs".to_owned(),
            "Games without DLSS, Streamline, or Reflex files have nothing to update.".to_owned(),
            Some("Show all games"),
        ),
        GameFilter::Staged => (
            icons::LIST_CHECKS,
            "No staged changes".to_owned(),
            "Open a game and choose a version for any DLL to stage it.".to_owned(),
            None,
        ),
        GameFilter::Problems => (
            icons::CHECK_CIRCLE,
            "No problems found".to_owned(),
            "Every DLL was read and has a version.".to_owned(),
            None,
        ),
        GameFilter::Recent => (
            icons::CLOCK,
            "Nothing changed yet".to_owned(),
            "Games you update or restore during this session appear here.".to_owned(),
            None,
        ),
        GameFilter::All => (icons::GAME_CONTROLLER, "No games".to_owned(), "".to_owned(), None),
    }
}

/// Widens the view by one step: drops the search, else the store, else shows
/// every game.
pub fn widen(filter: &mut LibraryFilter)
    ensures
        final(filter).sort == old(filter).sort,
        if old(filter).search@.len() > 0 {
            &&& final(filter).search@ == ""@
            &&& final(filter).store == old(filter).store
            &&& final(filter).tab == old(filter).tab
        } else {
            &&& final(filter).search == old(filter).search
            &&& final(filter).store == StoreFilter::All
            &&& final(filter).tab == if old(filter).store != StoreFilter::All {
                old(filter).tab
            } else {
                GameFilter::All
            }
        },
{
    if !filter.search.as_str().is_empty() {
        filter.search = "".to_owned();
    } else if filter.store != StoreFilter::All {
        filter.store = StoreFilter::All;
    } else {
        filter.tab = GameFilter::All;
    }
}

} // verus!
