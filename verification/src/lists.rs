//! Looking through sequences.

use vstd::prelude::*;

verus! {

/// The position of the first item that is wanted, or the number of items if
/// none is.
pub open spec fn first_where<T>(items: Seq<T>, wanted: spec_fn(T) -> bool) -> int
    decreases items.len(),
{
    if items.len() == 0 {
        0
    } else {
        let before = first_where(items.drop_last(), wanted);
        if before < items.len() - 1 {
            before
        } else if wanted(items.last()) {
            items.len() - 1
        } else {
            items.len() as int
        }
    }
}

/// The item at `at` is the first that is wanted, if it is wanted and none
/// before it is; `at` can be the number of items.
pub proof fn first_is<T>(items: Seq<T>, wanted: spec_fn(T) -> bool, at: int)
    requires
        0 <= at <= items.len(),
        forall|i: int| 0 <= i < at ==> !wanted(#[trigger] items[i]),
        at < items.len() ==> wanted(items[at]),
    ensures
        first_where(items, wanted) == at,
    decreases items.len(),
{
    if items.len() > 0 {
        let shorter = items.drop_last();
        assert forall|i: int| 0 <= i < at && i < shorter.len() implies !wanted(
            #[trigger] shorter[i],
        ) by {
            assert(shorter[i] == items[i]);
        }
        if at < shorter.len() {
            first_is(shorter, wanted, at);
        } else {
            first_is(shorter, wanted, shorter.len() as int);
            if at == items.len() {
                assert(!wanted(items[items.len() - 1]));
            }
        }
    }
}

/// What [`first_where`] gives is wanted, and nothing before it is.
pub proof fn first_is_wanted<T>(items: Seq<T>, wanted: spec_fn(T) -> bool)
    ensures
        0 <= first_where(items, wanted) <= items.len(),
        first_where(items, wanted) < items.len() ==> wanted(items[first_where(items, wanted)]),
        forall|i: int|
            0 <= i < first_where(items, wanted) ==> !wanted(#[trigger] items[i]),
    decreases items.len(),
{
    if items.len() > 0 {
        let shorter = items.drop_last();
        first_is_wanted(shorter, wanted);
        assert forall|i: int| 0 <= i < first_where(items, wanted) implies !wanted(
            #[trigger] items[i],
        ) by {
            if i < shorter.len() {
                assert(shorter[i] == items[i]);
            }
        }
    }
}

/// The items that are wanted, in their order.
pub open spec fn only_where<T>(items: Seq<T>, wanted: spec_fn(T) -> bool) -> Seq<T>
    decreases items.len(),
{
    if items.len() == 0 {
        items
    } else if wanted(items.last()) {
        only_where(items.drop_last(), wanted).push(items.last())
    } else {
        only_where(items.drop_last(), wanted)
    }
}

/// What is wanted is never more than there is, and every item of it is wanted.
pub proof fn only_wanted<T>(items: Seq<T>, wanted: spec_fn(T) -> bool)
    ensures
        only_where(items, wanted).len() <= items.len(),
        forall|i: int|
            0 <= i < only_where(items, wanted).len() ==> {
                &&& wanted(#[trigger] only_where(items, wanted)[i])
                &&& items.contains(only_where(items, wanted)[i])
            },
    decreases items.len(),
{
    if items.len() > 0 {
        let shorter = items.drop_last();
        only_wanted(shorter, wanted);
        let kept = only_where(items, wanted);
        assert forall|i: int| 0 <= i < kept.len() implies wanted(#[trigger] kept[i])
            && items.contains(kept[i]) by {
            let before = only_where(shorter, wanted);
            if i < before.len() {
                assert(kept[i] == before[i]);
                let j = choose|j: int| 0 <= j < shorter.len() && shorter[j] == before[i];
                assert(items[j] == kept[i]);
            } else {
                assert(items[items.len() - 1] == kept[i]);
            }
        }
    }
}

/// Whether `picked` names, in ascending order and each once, exactly those of
/// the first `total` positions that are wanted. Its length is how many they
/// are.
pub open spec fn picks(picked: Seq<int>, total: int, wanted: spec_fn(int) -> bool) -> bool {
    &&& forall|i: int, j: int| 0 <= i < j < picked.len() ==> picked[i] < picked[j]
    &&& forall|i: int|
        0 <= i < picked.len() ==> 0 <= #[trigger] picked[i] < total && wanted(picked[i])
    &&& forall|at: int| 0 <= at < total && #[trigger] wanted(at) ==> picked.contains(at)
}

/// The positions that are wanted, with one more position to look at.
pub proof fn picks_grow(
    picked: Seq<int>,
    total: int,
    before: spec_fn(int) -> bool,
    wanted: spec_fn(int) -> bool,
) -> (grown: Seq<int>)
    requires
        0 <= total,
        picks(picked, total, before),
        forall|at: int| 0 <= at < total ==> #[trigger] wanted(at) == before(at),
    ensures
        picks(grown, total + 1, wanted),
        wanted(total) ==> grown == picked.push(total),
        !wanted(total) ==> grown == picked,
{
    let grown = if wanted(total) {
        picked.push(total)
    } else {
        picked
    };
    assert forall|at: int| 0 <= at < total + 1 && #[trigger] wanted(at) implies grown.contains(
        at,
    ) by {
        if at < total {
            assert(before(at));
            let k = choose|k: int| 0 <= k < picked.len() && picked[k] == at;
            assert(grown[k] == at);
        } else {
            assert(grown[picked.len() as int] == at);
        }
    }
    grown
}

/// No position is there, so none is wanted.
pub proof fn picks_nothing(wanted: spec_fn(int) -> bool)
    ensures
        picks(Seq::<int>::empty(), 0, wanted),
{
}

/// There is one list of the positions that are wanted.
pub proof fn picks_are_unique(
    one: Seq<int>,
    other: Seq<int>,
    total: int,
    wanted: spec_fn(int) -> bool,
)
    requires
        picks(one, total, wanted),
        picks(other, total, wanted),
    ensures
        one == other,
    decreases one.len(),
{
    if one.len() == 0 || other.len() == 0 {
        if one.len() > 0 {
            assert(wanted(one[0]));
            assert(other.contains(one[0]));
        }
        if other.len() > 0 {
            assert(wanted(other[0]));
            assert(one.contains(other[0]));
        }
        assert(one =~= other);
    } else {
        assert(wanted(one.last()));
        assert(wanted(other.last()));
        assert(other.contains(one.last()));
        assert(one.contains(other.last()));
        let top = one.last();
        assert(one.last() == other.last());
        let fewer = |at: int| wanted(at) && at != top;
        assert forall|at: int| 0 <= at < total && #[trigger] fewer(at) implies one.drop_last().contains(
            at,
        ) && other.drop_last().contains(at) by {
            assert(wanted(at));
            let i = choose|i: int| 0 <= i < one.len() && one[i] == at;
            assert(one.drop_last()[i] == at);
            let j = choose|j: int| 0 <= j < other.len() && other[j] == at;
            assert(other.drop_last()[j] == at);
        }
        assert(picks(one.drop_last(), total, fewer));
        assert(picks(other.drop_last(), total, fewer));
        picks_are_unique(one.drop_last(), other.drop_last(), total, fewer);
        assert(one =~= one.drop_last().push(one.last()));
        assert(other =~= other.drop_last().push(other.last()));
    }
}

/// What [`only_where`] gives are the items at the positions that are wanted,
/// in order.
pub proof fn wanted_items_are_kept<T>(items: Seq<T>, wanted: spec_fn(T) -> bool) -> (picked: Seq<
    int,
>)
    ensures
        picks(picked, items.len() as int, |i: int| wanted(items[i])),
        only_where(items, wanted).len() == picked.len(),
        forall|k: int|
            0 <= k < picked.len() ==> #[trigger] only_where(items, wanted)[k] == items[picked[k]],
    decreases items.len(),
{
    let here = |i: int| wanted(items[i]);
    if items.len() == 0 {
        picks_nothing(here);
        Seq::empty()
    } else {
        let shorter = items.drop_last();
        let before = wanted_items_are_kept(shorter, wanted);
        let grown = picks_grow(before, shorter.len() as int, |i: int| wanted(shorter[i]), here);
        assert(only_where(items, wanted).len() == grown.len());
        grown
    }
}

} // verus!
