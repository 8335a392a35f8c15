//! What holds of the library as a whole: which games it shows, in which order,
//! and what a click selects.

use crate::library::{
    in_store, in_tab, is_row_of, is_sorted_as, rearranged, row_of, selecting, shown_rows,
    sort_keys, sorts_down, staged_ids, status_of, status_rank, toggled_span, GameFilter,
    GameRow, GameSort, RowStatus, SortKey, StoreFilter, Toggle,
};
use crate::lists::{first_is_wanted, picks, picks_grow, picks_nothing};
use crate::model::{
    version_less, version_numbers_keep_order, DesiredDll, GameId, GameInstall, StoreKind,
};
use crate::order::{code_points, is_stable_order, precedes, stable_orders_are_sorted};
use crate::profile::TargetProfile;
use crate::text::{lowercase, occurs};
use vstd::prelude::*;

verus! {

/// Whether a game is to be shown: its name or that of its store holds the
/// search, it comes from the store that is asked for, and it belongs on the
/// tab.
pub open spec fn is_wanted(
    game: GameRow,
    search: Seq<char>,
    store: StoreFilter,
    tab: GameFilter,
    staged: Seq<GameId>,
) -> bool {
    &&& search.len() == 0 || occurs(lowercase(game.name@), search) || occurs(
        lowercase(game.store@),
        search,
    )
    &&& store == StoreFilter::Steam ==> game.store_kind == StoreKind::Steam
    &&& store == StoreFilter::Epic ==> game.store_kind == StoreKind::Epic
    &&& store == StoreFilter::Gog ==> game.store_kind == StoreKind::Gog
    &&& store == StoreFilter::Manual ==> game.store_kind == StoreKind::Manual
    &&& tab == GameFilter::WithDlls ==> game.dlls > 0 || game.inspection_errors > 0
    &&& tab == GameFilter::Updates ==> game.upgrades > 0
    &&& tab == GameFilter::Staged ==> exists|i: int|
        0 <= i < staged.len() && (#[trigger] staged[i])@ == game.id@
    &&& tab == GameFilter::Problems ==> game.inspection_errors > 0 || game.has_unknown
    &&& tab == GameFilter::Recent ==> game.last_operation is Some
}

/// The library shows exactly the games that are wanted, each once.
pub proof fn every_wanted_game_is_shown(
    games: Seq<GameRow>,
    search: Seq<char>,
    store: StoreFilter,
    tab: GameFilter,
    staged: Seq<GameId>,
) -> (shown: Seq<int>)
    requires
        games.len() <= usize::MAX,
    ensures
        picks(
            shown,
            games.len() as int,
            |i: int| is_wanted(games[i], search, store, tab, staged),
        ),
        shown_rows(games, search, store, tab, staged).len() == shown.len(),
        forall|k: int|
            0 <= k < shown.len() ==> #[trigger] shown_rows(games, search, store, tab, staged)[k]
                == shown[k],
    decreases games.len(),
{
    let here = |i: int| is_wanted(games[i], search, store, tab, staged);
    if games.len() == 0 {
        picks_nothing(here);
        Seq::empty()
    } else {
        let shorter = games.drop_last();
        let before = every_wanted_game_is_shown(shorter, search, store, tab, staged);
        picks_grow(
            before,
            shorter.len() as int,
            |i: int| is_wanted(shorter[i], search, store, tab, staged),
            here,
        )
    }
}

/// Exactly the games with a DLL for which something other than what is
/// installed is staged are listed as staged, in their order.
pub proof fn every_staged_game_is_listed(
    games: Seq<GameRow>,
    profile: TargetProfile,
) -> (listed: Seq<int>)
    ensures
        picks(listed, games.len() as int, |i: int| exists|d: int|
                    0 <= d < games[i].details@.len() && (profile.staged(
                        (#[trigger] games[i].details@[d]).id@,
                    ) matches Some(desired) && desired != DesiredDll::KeepInstalled)),
        staged_ids(games, profile).len() == listed.len(),
        forall|k: int|
            #![trigger staged_ids(games, profile)[k]]
            0 <= k < listed.len() ==> staged_ids(games, profile)[k] == games[listed[k]].id,
    decreases games.len(),
{
    let here = |i: int| exists|d: int|
                    0 <= d < games[i].details@.len() && (profile.staged(
                        (#[trigger] games[i].details@[d]).id@,
                    ) matches Some(desired) && desired != DesiredDll::KeepInstalled);
    if games.len() == 0 {
        picks_nothing(here);
        Seq::empty()
    } else {
        let shorter = games.drop_last();
        let before = every_staged_game_is_listed(shorter, profile);
        picks_grow(before, shorter.len() as int, |i: int| exists|d: int|
                    0 <= d < shorter[i].details@.len() && (profile.staged(
                        (#[trigger] shorter[i].details@[d]).id@,
                    ) matches Some(desired) && desired != DesiredDll::KeepInstalled), here)
    }
}

/// Sorting loses no row and doubles none.
pub proof fn sorting_keeps_every_row(
    before: Seq<usize>,
    games: Seq<GameRow>,
    sort: GameSort,
    latest_ready: bool,
    after: Seq<usize>,
) -> (order: Seq<usize>)
    requires
        is_sorted_as(before, games, sort, latest_ready, after),
    ensures
        after.len() == before.len(),
        order.len() == before.len(),
        forall|i: int| 0 <= i < order.len() ==> #[trigger] order[i] < before.len(),
        forall|i: int, j: int| 0 <= i < j < order.len() ==> order[i] != order[j],
        forall|i: int| 0 <= i < after.len() ==> #[trigger] after[i] == before[order[i] as int],
        forall|k: int| 0 <= k < before.len() ==> after.contains(#[trigger] before[k]),
{
    let keys = sort_keys(before, games, sort, latest_ready);
    let order = choose|order: Seq<usize>|
        #![trigger rearranged(before, order)]
        is_stable_order(keys, sorts_down(sort), order) && after == rearranged(before, order);
    stable_orders_are_sorted(keys, sorts_down(sort), order);
    assert forall|k: int| 0 <= k < before.len() implies after.contains(#[trigger] before[k]) by {
        assert(crate::order::lists(order, k));
        let i = choose|i: int| 0 <= i < order.len() && #[trigger] order[i] == k;
        assert(after[i] == before[k]);
    }
    order
}

/// Whether one name comes before another in the direction of a sort, whatever
/// the case of their letters.
pub open spec fn name_comes_first(one: GameRow, other: GameRow, ascending: bool) -> bool {
    if ascending {
        precedes(code_points(lowercase(one.name@)), code_points(lowercase(other.name@)))
    } else {
        precedes(code_points(lowercase(other.name@)), code_points(lowercase(one.name@)))
    }
}

/// Rows are in the order that was asked for: by name, by store and then by
/// name, or by the number of DLLs, by version or by status and then by name. No
/// row stands behind one that it comes before.
pub proof fn rows_are_in_order(
    before: Seq<usize>,
    games: Seq<GameRow>,
    sort: GameSort,
    latest_ready: bool,
    after: Seq<usize>,
    early: int,
    late: int,
)
    requires
        is_sorted_as(before, games, sort, latest_ready, after),
        0 <= early < late < after.len(),
    ensures
        ({
            let one = games[after[early] as int];
            let two = games[after[late] as int];
            &&& sort.key == SortKey::Name ==> !name_comes_first(two, one, sort.ascending)
            &&& sort.key == SortKey::Store && sort.ascending ==> !precedes(
                code_points(two.store@),
                code_points(one.store@),
            )
            &&& sort.key == SortKey::Store && !sort.ascending ==> !precedes(
                code_points(one.store@),
                code_points(two.store@),
            )
            &&& sort.key == SortKey::Store && one.store@ == two.store@ ==> !name_comes_first(
                two,
                one,
                sort.ascending,
            )
            &&& sort.key == SortKey::Dlls && sort.ascending ==> one.dlls <= two.dlls
            &&& sort.key == SortKey::Dlls && !sort.ascending ==> one.dlls >= two.dlls
            &&& sort.key == SortKey::Dlls && one.dlls == two.dlls ==> !name_comes_first(
                two,
                one,
                sort.ascending,
            )
            &&& sort.key == SortKey::DlssVersion && one.dlss_version == two.dlss_version
                ==> !name_comes_first(two, one, true)
            &&& sort.key == SortKey::Status && status_of(one, latest_ready) == status_of(
                two,
                latest_ready,
            ) ==> !name_comes_first(two, one, sort.ascending)
        }),
{
    let keys = sort_keys(before, games, sort, latest_ready);
    let order = choose|order: Seq<usize>|
        #![trigger rearranged(before, order)]
        is_stable_order(keys, sorts_down(sort), order) && after == rearranged(before, order);
    stable_orders_are_sorted(keys, sorts_down(sort), order);
    assert(order[early] != order[late]);
    let one = keys[order[early] as int];
    let two = keys[order[late] as int];
    assert(after[early] == before[order[early] as int]);
    assert(after[late] == before[order[late] as int]);
}

/// A row has exactly one status. Unreadable files come first, then that there
/// is nothing to compare, and a game is only up to date where a release was
/// compared with, nothing newer was found and every version is known.
pub proof fn statuses_are_told_in_order(game: GameRow, latest_ready: bool)
    ensures
        status_of(game, latest_ready) == RowStatus::Problem <==> game.inspection_errors > 0,
        status_of(game, latest_ready) == RowStatus::NoDlls <==> game.inspection_errors == 0
            && game.dlls == 0,
        status_of(game, latest_ready) == RowStatus::NotChecked <==> game.inspection_errors == 0
            && game.dlls > 0 && !latest_ready,
        status_of(game, latest_ready) == RowStatus::UpdateAvailable <==> game.inspection_errors == 0
            && game.dlls > 0 && latest_ready && game.dlss_upgrades > 0,
        status_of(game, latest_ready) == RowStatus::OptionalUpdates <==> game.inspection_errors == 0
            && game.dlls > 0 && latest_ready && game.dlss_upgrades == 0 && game.upgrades > 0,
        status_of(game, latest_ready) == RowStatus::VersionUnknown <==> game.inspection_errors == 0
            && game.dlls > 0 && latest_ready && game.dlss_upgrades == 0 && game.upgrades == 0
            && game.has_unknown,
        status_of(game, latest_ready) == RowStatus::UpToDate <==> game.inspection_errors == 0
            && game.dlls > 0 && latest_ready && game.dlss_upgrades == 0 && game.upgrades == 0
            && !game.has_unknown,
{
}

/// A click that extends the selection means everything between the row of the
/// anchor and the clicked row, both of them too, whichever comes first. Any
/// other click, and one without a visible anchor, means the clicked row alone.
pub proof fn clicks_mean_what_lies_between(
    rows: Seq<usize>,
    games: Seq<GameRow>,
    anchor: Option<Seq<char>>,
    toggle: Toggle,
)
    requires
        toggle.position < rows.len(),
    ensures
        ({
            let (from, to) = toggled_span(rows, games, anchor, toggle);
            let clicked = toggle.position as int;
            &&& 0 <= from <= clicked <= to < rows.len()
            &&& from == clicked || to == clicked
            &&& !toggle.extend || anchor is None ==> from == clicked && to == clicked
            &&& anchor matches Some(id) ==> toggle.extend ==> forall|at: int|
                0 <= at < rows.len() && games[#[trigger] rows[at] as int].id@ == id && (forall|
                    i: int,
                |
                    0 <= i < at ==> games[#[trigger] rows[i] as int].id@ != id) ==> from <= at <= to
                    && (from == at || to == at)
            &&& anchor matches Some(id) ==> (forall|i: int|
                0 <= i < rows.len() ==> games[#[trigger] rows[i] as int].id@ != id) ==> from
                == clicked && to == clicked
        }),
{
    if let Some(id) = anchor {
        let wanted = crate::library::is_row_for(games, id);
        first_is_wanted(rows, wanted);
        let found = row_of(rows, games, id);
        assert forall|i: int| 0 <= i < found implies games[#[trigger] rows[i] as int].id@
            != id by {
            assert(!wanted(rows[i]));
        }
        if found < rows.len() {
            assert(wanted(rows[found]));
            assert(games[rows[found] as int].id@ == id);
        }
    }
}

/// Selecting a row changes nothing else about it, and a game without DLLs is
/// never selected.
pub proof fn selecting_changes_only_the_mark(row: GameRow, selected: bool)
    ensures
        selecting(row, selected) == (GameRow { selected: selecting(row, selected).selected, ..row }),
        selecting(row, selected).selected <==> selected && row.dlls > 0,
{
}

/// Rows that are sorted by status stand in the order in which the user is to
/// look at them: updates, what was not checked, problems, optional updates,
/// unknown versions, what is up to date, and games without DLLs, or the other
/// way round.
pub proof fn pressing_statuses_come_first(
    before: Seq<usize>,
    games: Seq<GameRow>,
    sort: GameSort,
    latest_ready: bool,
    after: Seq<usize>,
    early: int,
    late: int,
)
    requires
        is_sorted_as(before, games, sort, latest_ready, after),
        0 <= early < late < after.len(),
        sort.key == SortKey::Status,
    ensures
        status_rank(RowStatus::UpdateAvailable) < status_rank(RowStatus::NotChecked) < status_rank(
            RowStatus::Problem,
        ) < status_rank(RowStatus::OptionalUpdates) < status_rank(RowStatus::VersionUnknown)
            < status_rank(RowStatus::UpToDate) < status_rank(RowStatus::NoDlls),
        ({
            let one = status_rank(status_of(games[after[early] as int], latest_ready));
            let two = status_rank(status_of(games[after[late] as int], latest_ready));
            if sort.ascending {
                one <= two
            } else {
                one >= two
            }
        }),
{
    let keys = sort_keys(before, games, sort, latest_ready);
    let order = choose|order: Seq<usize>|
        #![trigger rearranged(before, order)]
        is_stable_order(keys, sorts_down(sort), order) && after == rearranged(before, order);
    stable_orders_are_sorted(keys, sorts_down(sort), order);
    assert(order[early] != order[late]);
    let one = keys[order[early] as int];
    let two = keys[order[late] as int];
    assert(after[early] == before[order[early] as int]);
    assert(after[late] == before[order[late] as int]);
}

/// Rows that are sorted by version stand from the oldest to the newest or the
/// other way round, and rows without a version always stand last.
pub proof fn versions_are_in_order(
    before: Seq<usize>,
    games: Seq<GameRow>,
    sort: GameSort,
    latest_ready: bool,
    after: Seq<usize>,
    early: int,
    late: int,
)
    requires
        is_sorted_as(before, games, sort, latest_ready, after),
        0 <= early < late < after.len(),
        sort.key == SortKey::DlssVersion,
    ensures
        ({
            let one = games[after[early] as int].dlss_version;
            let two = games[after[late] as int].dlss_version;
            &&& one is None ==> two is None
            &&& one matches Some(left) ==> two matches Some(right) ==> if sort.ascending {
                !version_less(right, left)
            } else {
                !version_less(left, right)
            }
        }),
{
    let keys = sort_keys(before, games, sort, latest_ready);
    let order = choose|order: Seq<usize>|
        #![trigger rearranged(before, order)]
        is_stable_order(keys, sorts_down(sort), order) && after == rearranged(before, order);
    stable_orders_are_sorted(keys, sorts_down(sort), order);
    assert(order[early] != order[late]);
    let one = keys[order[early] as int];
    let two = keys[order[late] as int];
    assert(after[early] == before[order[early] as int]);
    assert(after[late] == before[order[late] as int]);
    let left = games[after[early] as int].dlss_version;
    let right = games[after[late] as int].dlss_version;
    if let Some(left) = left {
        version_numbers_keep_order(left, left);
        if let Some(right) = right {
            version_numbers_keep_order(left, right);
            version_numbers_keep_order(right, left);
        }
    }
    if let Some(right) = right {
        version_numbers_keep_order(right, right);
    }
}

/// Each tab shows the games that it is for, and a store filter the games of
/// that store.
pub proof fn tabs_show_what_they_are_for(
    game: GameRow,
    staged: Seq<GameId>,
    store: StoreKind,
    filter: StoreFilter,
)
    ensures
        in_tab(game, GameFilter::All, staged),
        in_tab(game, GameFilter::WithDlls, staged) <==> game.dlls > 0 || game.inspection_errors > 0,
        in_tab(game, GameFilter::Updates, staged) <==> game.upgrades > 0,
        in_tab(game, GameFilter::Staged, staged) <==> exists|i: int|
            0 <= i < staged.len() && (#[trigger] staged[i])@ == game.id@,
        in_tab(game, GameFilter::Problems, staged) <==> game.inspection_errors > 0
            || game.has_unknown,
        in_tab(game, GameFilter::Recent, staged) <==> game.last_operation is Some,
        filter != StoreFilter::All ==> (in_store(store, filter) <==> (filter == StoreFilter::Steam
            && store == StoreKind::Steam) || (filter == StoreFilter::Epic && store
            == StoreKind::Epic) || (filter == StoreFilter::Gog && store == StoreKind::Gog) || (
        filter == StoreFilter::Manual && store == StoreKind::Manual)),
        in_store(store, StoreFilter::All),
{
}

/// The row of a game shows that game: its name, store, folder and DLLs. It is
/// not selected, nothing was compared yet, and a version is unknown where that
/// of some DLL is.
pub proof fn rows_show_their_game(row: GameRow, game: GameInstall)
    requires
        is_row_of(row, game),
    ensures
        row.id == game.id,
        row.name == game.name,
        row.root == game.root,
        row.store_kind == game.store,
        row.details == game.dlls,
        row.dlls == game.dlls.len(),
        row.inspection_errors == game.inspection_errors,
        !row.selected && row.upgrades == 0 && row.dlss_upgrades == 0 && row.last_operation is None,
        row.has_unknown <==> exists|i: int|
            0 <= i < game.dlls.len() && (#[trigger] game.dlls@[i]).metadata.version is None,
{
}

} // verus!
