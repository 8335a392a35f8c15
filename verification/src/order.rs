//! Lexicographic order and stable sorting.

use crate::text::{chars_of, text_views};
use vstd::prelude::*;

verus! {

/// Lexicographic order: the first place in which two sequences differ decides,
/// and a proper prefix comes first.
pub open spec fn precedes(left: Seq<int>, right: Seq<int>) -> bool
    decreases left.len(),
{
    if right.len() == 0 {
        false
    } else if left.len() == 0 {
        true
    } else if left[0] != right[0] {
        left[0] < right[0]
    } else {
        precedes(left.drop_first(), right.drop_first())
    }
}

/// The numbers by which characters are ordered.
pub open spec fn code_points(text: Seq<char>) -> Seq<int> {
    text.map_values(|character: char| character as int)
}

/// The numbers by which bytes are ordered.
pub open spec fn byte_values(bytes: Seq<u8>) -> Seq<int> {
    bytes.map_values(|byte: u8| byte as int)
}

/// Nothing precedes itself.
pub proof fn precedes_is_irreflexive(one: Seq<int>)
    ensures
        !precedes(one, one),
    decreases one.len(),
{
    if one.len() > 0 {
        precedes_is_irreflexive(one.drop_first());
    }
}

/// The order is transitive.
pub proof fn precedes_is_transitive(one: Seq<int>, two: Seq<int>, three: Seq<int>)
    requires
        precedes(one, two),
        precedes(two, three),
    ensures
        precedes(one, three),
    decreases one.len(),
{
    if one.len() > 0 && one[0] == two[0] && two[0] == three[0] {
        precedes_is_transitive(one.drop_first(), two.drop_first(), three.drop_first());
    }
}

/// Of two different sequences one precedes the other.
pub proof fn precedes_is_total(one: Seq<int>, two: Seq<int>)
    ensures
        one == two || precedes(one, two) || precedes(two, one),
    decreases one.len(),
{
    if one.len() == 0 || two.len() == 0 {
        if one.len() == 0 && two.len() == 0 {
            assert(one =~= two);
        }
    } else if one[0] == two[0] {
        precedes_is_total(one.drop_first(), two.drop_first());
        if one.drop_first() == two.drop_first() {
            assert(one =~= seq![one[0]] + one.drop_first());
            assert(two =~= seq![two[0]] + two.drop_first());
        }
    }
}

/// A common beginning does not matter for the order.
proof fn precedes_after_common(left: Seq<int>, right: Seq<int>, common: nat)
    requires
        common <= left.len(),
        common <= right.len(),
        forall|i: int| 0 <= i < common ==> left[i] == right[i],
    ensures
        precedes(left, right) == precedes(left.skip(common as int), right.skip(common as int)),
    decreases common,
{
    if common == 0 {
        assert(left.skip(0) =~= left);
        assert(right.skip(0) =~= right);
    } else {
        let rest = (common - 1) as nat;
        precedes_after_common(left.drop_first(), right.drop_first(), rest);
        assert(left.drop_first().skip(rest as int) =~= left.skip(common as int));
        assert(right.drop_first().skip(rest as int) =~= right.skip(common as int));
    }
}

/// Whether `left` comes before `right` in code point order.
pub fn chars_precede(left: &Vec<char>, right: &Vec<char>) -> (before: bool)
    ensures
        before == precedes(code_points(left@), code_points(right@)),
{
    let ghost one = code_points(left@);
    let ghost two = code_points(right@);
    let mut at: usize = 0;
    while at < left.len() && at < right.len() && left[at] == right[at]
        invariant
            at <= left.len(),
            at <= right.len(),
            one == code_points(left@),
            two == code_points(right@),
            forall|i: int| 0 <= i < at ==> one[i] == two[i],
        decreases left.len() - at,
    {
        at += 1;
    }
    proof {
        precedes_after_common(one, two, at as nat);
    }
    if at == right.len() {
        false
    } else if at == left.len() {
        true
    } else {
        left[at] < right[at]
    }
}

/// Whether `left` comes before `right` in byte order.
pub fn hash_precedes(left: &[u8; 32], right: &[u8; 32]) -> (before: bool)
    ensures
        before == precedes(byte_values(left@), byte_values(right@)),
{
    let ghost one = byte_values(left@);
    let ghost two = byte_values(right@);
    let mut at: usize = 0;
    while at < 32 && left[at] == right[at]
        invariant
            at <= 32,
            one == byte_values(left@),
            two == byte_values(right@),
            forall|i: int| 0 <= i < at ==> one[i] == two[i],
        decreases 32 - at,
    {
        at += 1;
    }
    proof {
        precedes_after_common(one, two, at as nat);
    }
    if at == 32 {
        false
    } else {
        left[at] < right[at]
    }
}

/// What a row is sorted by: a number, then two texts.
pub struct OrderKey {
    pub number: u128,
    pub first: Vec<char>,
    pub second: Vec<char>,
}

/// The mathematical content of an [`OrderKey`].
pub struct KeyModel {
    pub number: int,
    pub first: Seq<char>,
    pub second: Seq<char>,
}

impl View for OrderKey {
    type V = KeyModel;

    open spec fn view(&self) -> KeyModel {
        KeyModel { number: self.number as int, first: self.first@, second: self.second@ }
    }
}

/// Ascending order of keys: by number, then by the first text, then by the
/// second.
pub open spec fn key_less(left: KeyModel, right: KeyModel) -> bool {
    ||| left.number < right.number
    ||| left.number == right.number && precedes(code_points(left.first), code_points(right.first))
    ||| left.number == right.number && left.first == right.first && precedes(
        code_points(left.second),
        code_points(right.second),
    )
}

/// Whether the row at `left` goes before the row at `right`: by key, in the
/// direction asked for, and by position where the keys are equal.
pub open spec fn goes_before(
    keys: Seq<KeyModel>,
    descending: bool,
    left: int,
    right: int,
) -> bool {
    ||| !descending && key_less(keys[left], keys[right])
    ||| descending && key_less(keys[right], keys[left])
    ||| keys[left] == keys[right] && left < right
}

/// `arranged` lists every position of `keys` once, each before those that
/// [`goes_before`] puts after it. At most one list does.
pub open spec fn is_stable_order(
    keys: Seq<KeyModel>,
    descending: bool,
    arranged: Seq<usize>,
) -> bool {
    &&& arranged.len() == keys.len()
    &&& forall|i: int| 0 <= i < arranged.len() ==> 0 <= #[trigger] arranged[i] < keys.len()
    &&& forall|k: int| 0 <= k < keys.len() ==> #[trigger] lists(arranged, k)
    &&& forall|i: int, j: int|
        0 <= i < j < arranged.len() ==> goes_before(
            keys,
            descending,
            #[trigger] arranged[i] as int,
            #[trigger] arranged[j] as int,
        )
}

/// Whether `position` is in `arranged`.
pub open spec fn lists(arranged: Seq<usize>, position: int) -> bool {
    exists|i: int| 0 <= i < arranged.len() && #[trigger] arranged[i] == position
}

/// Texts with the same code points are the same.
pub proof fn equal_code_points(left: Seq<char>, right: Seq<char>)
    requires
        code_points(left) == code_points(right),
    ensures
        left == right,
{
    assert(left.len() == code_points(left).len());
    assert(right.len() == code_points(right).len());
    assert forall|i: int| 0 <= i < left.len() implies left[i] == right[i] by {
        assert(code_points(left)[i] == left[i] as int);
        assert(code_points(right)[i] == right[i] as int);
    }
    assert(left =~= right);
}

proof fn key_less_is_transitive(one: KeyModel, two: KeyModel, three: KeyModel)
    requires
        key_less(one, two),
        key_less(two, three),
    ensures
        key_less(one, three),
{
    if precedes(code_points(one.first), code_points(two.first)) && precedes(
        code_points(two.first),
        code_points(three.first),
    ) {
        precedes_is_transitive(
            code_points(one.first),
            code_points(two.first),
            code_points(three.first),
        );
    }
    if precedes(code_points(one.second), code_points(two.second)) && precedes(
        code_points(two.second),
        code_points(three.second),
    ) {
        precedes_is_transitive(
            code_points(one.second),
            code_points(two.second),
            code_points(three.second),
        );
    }
}

proof fn key_less_is_total(one: KeyModel, two: KeyModel)
    ensures
        one == two || key_less(one, two) || key_less(two, one),
        !(key_less(one, two) && key_less(two, one)),
        !key_less(one, one),
{
    precedes_is_total(code_points(one.first), code_points(two.first));
    precedes_is_total(code_points(one.second), code_points(two.second));
    if code_points(one.first) == code_points(two.first) {
        equal_code_points(one.first, two.first);
    }
    if code_points(one.second) == code_points(two.second) {
        equal_code_points(one.second, two.second);
    }
    precedes_is_irreflexive(code_points(one.first));
    precedes_is_irreflexive(code_points(one.second));
    if key_less(one, two) && key_less(two, one) {
        key_less_is_transitive(one, two, one);
    }
}

proof fn goes_before_is_transitive(
    keys: Seq<KeyModel>,
    descending: bool,
    one: int,
    two: int,
    three: int,
)
    requires
        goes_before(keys, descending, one, two),
        goes_before(keys, descending, two, three),
    ensures
        goes_before(keys, descending, one, three),
{
    if descending {
        if key_less(keys[two], keys[one]) && key_less(keys[three], keys[two]) {
            key_less_is_transitive(keys[three], keys[two], keys[one]);
        }
    } else {
        if key_less(keys[one], keys[two]) && key_less(keys[two], keys[three]) {
            key_less_is_transitive(keys[one], keys[two], keys[three]);
        }
    }
}

/// Two rows never go before each other.
pub proof fn goes_before_is_strict(keys: Seq<KeyModel>, descending: bool, one: int, two: int)
    requires
        goes_before(keys, descending, one, two),
    ensures
        !goes_before(keys, descending, two, one),
        one != two,
{
    key_less_is_total(keys[one], keys[two]);
}

/// Decides [`key_less`].
pub fn key_is_less(left: &OrderKey, right: &OrderKey) -> (less: bool)
    ensures
        less == key_less(left@, right@),
{
    if left.number != right.number {
        return left.number < right.number;
    }
    if chars_precede(&left.first, &right.first) {
        return true;
    }
    proof {
        precedes_is_irreflexive(code_points(left.first@));
    }
    crate::text::same_chars(&left.first, &right.first) && chars_precede(
        &left.second,
        &right.second,
    )
}

/// Whether the later row `late` has to move ahead of the row `early`.
fn moves_ahead(keys: &Vec<OrderKey>, descending: bool, late: usize, early: usize) -> (ahead: bool)
    requires
        early < late < keys.len(),
    ensures
        ahead == goes_before(
            keys@.map_values(|key: OrderKey| key@),
            descending,
            late as int,
            early as int,
        ),
{
    if descending {
        key_is_less(&keys[early], &keys[late])
    } else {
        key_is_less(&keys[late], &keys[early])
    }
}

/// The stable order of `keys`, as positions.
pub fn stable_order(keys: &Vec<OrderKey>, descending: bool) -> (arranged: Vec<usize>)
    ensures
        is_stable_order(keys@.map_values(|key: OrderKey| key@), descending, arranged@),
{
    let ghost models = keys@.map_values(|key: OrderKey| key@);
    let mut arranged: Vec<usize> = Vec::new();
    let mut next: usize = 0;
    while next < keys.len()
        invariant
            next <= keys.len(),
            models == keys@.map_values(|key: OrderKey| key@),
            arranged.len() == next,
            forall|i: int| 0 <= i < next ==> #[trigger] arranged@[i] < next,
            forall|k: int| 0 <= k < next ==> #[trigger] lists(arranged@, k),
            forall|i: int, j: int|
                0 <= i < j < next ==> goes_before(
                    models,
                    descending,
                    #[trigger] arranged@[i] as int,
                    #[trigger] arranged@[j] as int,
                ),
        decreases keys.len() - next,
    {
        let mut place: usize = next;
        while place > 0 && moves_ahead(keys, descending, next, arranged[place - 1])
            invariant
                place <= next,
                next < keys.len(),
                models == keys@.map_values(|key: OrderKey| key@),
                arranged.len() == next,
                forall|i: int| 0 <= i < next ==> #[trigger] arranged@[i] < next,
                forall|j: int|
                    place <= j < next ==> goes_before(
                        models,
                        descending,
                        next as int,
                        #[trigger] arranged@[j] as int,
                    ),
            decreases place,
        {
            place -= 1;
        }
        let ghost before = arranged@;
        arranged.insert(place, next);
        proof {
            insertion_keeps_order(models, descending, before, place as int, next);
        }
        next += 1;
    }
    arranged
}

/// Inserting position `next` behind everything that it does not go before
/// keeps the list in order.
proof fn insertion_keeps_order(
    models: Seq<KeyModel>,
    descending: bool,
    before: Seq<usize>,
    place: int,
    next: usize,
)
    requires
        next < models.len(),
        before.len() == next,
        0 <= place <= next,
        forall|i: int| 0 <= i < next ==> #[trigger] before[i] < next,
        forall|k: int| 0 <= k < next ==> #[trigger] lists(before, k),
        forall|i: int, j: int|
            0 <= i < j < next ==> goes_before(
                models,
                descending,
                #[trigger] before[i] as int,
                #[trigger] before[j] as int,
            ),
        forall|j: int|
            place <= j < next ==> goes_before(
                models,
                descending,
                next as int,
                #[trigger] before[j] as int,
            ),
        place > 0 ==> !goes_before(models, descending, next as int, before[place - 1] as int),
    ensures
        ({
            let after = before.insert(place, next);
            &&& after.len() == next + 1
            &&& forall|i: int| 0 <= i < next + 1 ==> #[trigger] after[i] < next + 1
            &&& forall|k: int| 0 <= k < next + 1 ==> #[trigger] lists(after, k)
            &&& forall|i: int, j: int|
                0 <= i < j < next + 1 ==> goes_before(
                    models,
                    descending,
                    #[trigger] after[i] as int,
                    #[trigger] after[j] as int,
                )
        }),
{
    let after = before.insert(place, next);
    assert forall|k: int| 0 <= k < next + 1 implies #[trigger] lists(after, k) by {
        if k == next {
            assert(after[place] == k);
        } else {
            assert(lists(before, k));
            let i = choose|i: int| 0 <= i < before.len() && #[trigger] before[i] == k;
            if i < place {
                assert(after[i] == k);
            } else {
                assert(after[i + 1] == k);
            }
        }
    }
    assert forall|i: int| 0 <= i < place implies goes_before(
        models,
        descending,
        #[trigger] before[i] as int,
        next as int,
    ) by {
        let last = before[place - 1] as int;
        key_less_is_total(models[last], models[next as int]);
        assert(goes_before(models, descending, last, next as int));
        if i < place - 1 {
            goes_before_is_transitive(models, descending, before[i] as int, last, next as int);
        }
    }
    assert forall|i: int, j: int| 0 <= i < j < next + 1 implies goes_before(
        models,
        descending,
        #[trigger] after[i] as int,
        #[trigger] after[j] as int,
    ) by {
        let from = if i < place { i } else { i - 1 };
        let to = if j < place { j } else { j - 1 };
        if i != place {
            assert(after[i] == before[from]);
        }
        if j != place {
            assert(after[j] == before[to]);
        }
    }
}

/// At most one list is the stable order of `keys`.
pub proof fn stable_order_is_unique(
    keys: Seq<KeyModel>,
    descending: bool,
    one: Seq<usize>,
    two: Seq<usize>,
)
    requires
        is_stable_order(keys, descending, one),
        is_stable_order(keys, descending, two),
    ensures
        one == two,
{
    if one != two {
        assert(exists|i: int| 0 <= i < one.len() && one[i] != two[i]) by {
            if forall|i: int| 0 <= i < one.len() ==> one[i] == two[i] {
                assert(one =~= two);
            }
        }
        let some = choose|i: int| 0 <= i < one.len() && one[i] != two[i];
        let first = first_difference(one, two, some);
        later_in_the_other(keys, descending, one, two, first);
        later_in_the_other(keys, descending, two, one, first);
        goes_before_is_strict(keys, descending, one[first] as int, two[first] as int);
    }
}

/// The first place in which two lists differ.
proof fn first_difference(one: Seq<usize>, two: Seq<usize>, some: int) -> (first: int)
    requires
        0 <= some < one.len(),
        one.len() == two.len(),
        one[some] != two[some],
    ensures
        0 <= first < one.len(),
        one[first] != two[first],
        forall|i: int| 0 <= i < first ==> one[i] == two[i],
    decreases some,
{
    if exists|i: int| 0 <= i < some && one[i] != two[i] {
        first_difference(one, two, choose|i: int| 0 <= i < some && one[i] != two[i])
    } else {
        some
    }
}

/// Where two orders first differ, what the one lists there comes later in the
/// other.
proof fn later_in_the_other(
    keys: Seq<KeyModel>,
    descending: bool,
    one: Seq<usize>,
    two: Seq<usize>,
    first: int,
)
    requires
        is_stable_order(keys, descending, one),
        is_stable_order(keys, descending, two),
        0 <= first < one.len(),
        one[first] != two[first],
        forall|i: int| 0 <= i < first ==> one[i] == two[i],
    ensures
        goes_before(keys, descending, two[first] as int, one[first] as int),
{
    assert(lists(two, one[first] as int));
    let at = choose|i: int| 0 <= i < two.len() && #[trigger] two[i] == one[first];
    if at < first {
        assert(one[at] == two[at]);
        goes_before_is_strict(keys, descending, one[at] as int, one[first] as int);
    }
}

/// What texts are sorted by.
pub open spec fn text_keys(texts: Seq<Seq<char>>) -> Seq<KeyModel> {
    texts.map_values(
        |text: Seq<char>| KeyModel { number: 0, first: text, second: Seq::empty() },
    )
}

/// The texts at the positions `order`.
pub open spec fn picked(texts: Seq<Seq<char>>, order: Seq<usize>) -> Seq<Seq<char>> {
    order.map_values(|at: usize| texts[at as int])
}

/// Whether `sorted` holds `texts` in code point order. At most one list does.
pub open spec fn is_sorted_list(texts: Seq<Seq<char>>, sorted: Seq<Seq<char>>) -> bool {
    exists|order: Seq<usize>|
        #![trigger is_stable_order(text_keys(texts), false, order)]
        is_stable_order(text_keys(texts), false, order) && sorted == picked(texts, order)
}

/// Sorts texts in code point order.
pub fn sort_texts(texts: &Vec<String>) -> (sorted: Vec<String>)
    ensures
        is_sorted_list(text_views(texts@), text_views(sorted@)),
        sorted.len() == texts.len(),
{
    let mut keys: Vec<OrderKey> = Vec::new();
    let mut at: usize = 0;
    while at < texts.len()
        invariant
            at <= texts.len(),
            keys.len() == at,
            forall|i: int|
                0 <= i < at ==> (#[trigger] keys@[i])@ == text_keys(text_views(texts@))[i],
        decreases texts.len() - at,
    {
        let key = OrderKey { number: 0, first: chars_of(&texts[at]), second: Vec::new() };
        proof {
            assert(key.second@ =~= Seq::<char>::empty());
        }
        keys.push(key);
        at += 1;
    }
    proof {
        assert(keys@.map_values(|key: OrderKey| key@) =~= text_keys(text_views(texts@)));
    }
    let order = stable_order(&keys, false);
    let mut sorted: Vec<String> = Vec::new();
    let mut next: usize = 0;
    while next < order.len()
        invariant
            next <= order.len(),
            order.len() == texts.len(),
            is_stable_order(text_keys(text_views(texts@)), false, order@),
            sorted.len() == next,
            forall|i: int|
                0 <= i < next ==> (#[trigger] sorted@[i])@ == picked(text_views(texts@), order@)[i],
        decreases order.len() - next,
    {
        proof {
            assert(order@[next as int] < text_keys(text_views(texts@)).len());
        }
        sorted.push(texts[order[next]].clone());
        next += 1;
    }
    proof {
        assert(text_views(sorted@) =~= picked(text_views(texts@), order@));
        assert(is_stable_order(text_keys(text_views(texts@)), false, order@));
    }
    sorted
}

/// The first place in which two sequences differ decides which comes first:
/// the smaller one there, or the one that has ended. Nothing precedes where
/// they do not differ.
pub proof fn the_first_difference_decides(left: Seq<int>, right: Seq<int>) -> (at: int)
    ensures
        0 <= at <= left.len() && at <= right.len(),
        forall|i: int| 0 <= i < at ==> left[i] == right[i],
        at < left.len() && at < right.len() ==> left[at] != right[at],
        precedes(left, right) <==> at < right.len() && (at == left.len() || left[at] < right[at]),
    decreases left.len(),
{
    if left.len() == 0 || right.len() == 0 || left[0] != right[0] {
        0
    } else {
        let one = left.drop_first();
        let two = right.drop_first();
        let at = the_first_difference_decides(one, two);
        assert forall|i: int| 0 <= i < at + 1 implies left[i] == right[i] by {
            if i > 0 {
                assert(one[i - 1] == two[i - 1]);
            }
        }
        at + 1
    }
}

/// A stable order lists every position once. No key comes before one that it
/// is listed behind, and equal keys keep the order of their positions.
pub proof fn stable_orders_are_sorted(keys: Seq<KeyModel>, descending: bool, arranged: Seq<usize>)
    requires
        is_stable_order(keys, descending, arranged),
    ensures
        arranged.len() == keys.len(),
        forall|i: int, j: int| 0 <= i < j < arranged.len() ==> arranged[i] != arranged[j],
        forall|position: usize|
            position < keys.len() ==> #[trigger] arranged.contains(position),
        forall|i: int, j: int|
            #![trigger arranged[i], arranged[j]]
            0 <= i < j < arranged.len() ==> {
                let early = keys[arranged[i] as int];
                let late = keys[arranged[j] as int];
                &&& !descending ==> early.number <= late.number
                &&& descending ==> early.number >= late.number
                &&& early.number == late.number && !descending ==> !precedes(
                    code_points(late.first),
                    code_points(early.first),
                )
                &&& early.number == late.number && descending ==> !precedes(
                    code_points(early.first),
                    code_points(late.first),
                )
                &&& early.number == late.number && early.first == late.first && !descending
                    ==> !precedes(code_points(late.second), code_points(early.second))
                &&& early.number == late.number && early.first == late.first && descending
                    ==> !precedes(code_points(early.second), code_points(late.second))
                &&& early == late ==> arranged[i] < arranged[j]
            },
{
    assert forall|i: int, j: int| 0 <= i < j < arranged.len() implies arranged[i]
        != arranged[j] by {
        goes_before_is_strict(keys, descending, arranged[i] as int, arranged[j] as int);
    }
    assert forall|position: usize| position < keys.len() implies #[trigger] arranged.contains(
        position,
    ) by {
        assert(lists(arranged, position as int));
    }
    assert forall|i: int, j: int|
        #![trigger arranged[i], arranged[j]]
        0 <= i < j < arranged.len() implies {
        let early = keys[arranged[i] as int];
        let late = keys[arranged[j] as int];
        &&& !descending ==> early.number <= late.number
        &&& descending ==> early.number >= late.number
        &&& early.number == late.number && !descending ==> !precedes(
            code_points(late.first),
            code_points(early.first),
        )
        &&& early.number == late.number && descending ==> !precedes(
            code_points(early.first),
            code_points(late.first),
        )
        &&& early.number == late.number && early.first == late.first && !descending ==> !precedes(
            code_points(late.second),
            code_points(early.second),
        )
        &&& early.number == late.number && early.first == late.first && descending ==> !precedes(
            code_points(early.second),
            code_points(late.second),
        )
        &&& early == late ==> arranged[i] < arranged[j]
    } by {
        let early = keys[arranged[i] as int];
        let late = keys[arranged[j] as int];
        key_less_is_total(early, late);
        key_less_is_total(early, early);
        precedes_is_irreflexive(code_points(early.first));
        precedes_is_irreflexive(code_points(early.second));
        assert(goes_before(keys, descending, arranged[i] as int, arranged[j] as int));
    }
}

/// Sorted texts are in code point order, and each text is among them as often
/// as it was given.
pub proof fn sorted_texts_are_in_order(texts: Seq<Seq<char>>, sorted: Seq<Seq<char>>) -> (order: Seq<
    usize,
>)
    requires
        is_sorted_list(texts, sorted),
    ensures
        sorted.len() == texts.len(),
        forall|i: int, j: int|
            0 <= i < j < sorted.len() ==> !precedes(
                code_points(#[trigger] sorted[j]),
                code_points(#[trigger] sorted[i]),
            ),
        order.len() == texts.len(),
        forall|i: int| 0 <= i < sorted.len() ==> #[trigger] order[i] < texts.len(),
        forall|i: int| 0 <= i < sorted.len() ==> #[trigger] sorted[i] == texts[order[i] as int],
        forall|i: int, j: int| 0 <= i < j < order.len() ==> order[i] != order[j],
{
    let order = choose|order: Seq<usize>|
        #![trigger is_stable_order(text_keys(texts), false, order)]
        is_stable_order(text_keys(texts), false, order) && sorted == picked(texts, order);
    stable_orders_are_sorted(text_keys(texts), false, order);
    assert forall|i: int, j: int| 0 <= i < j < sorted.len() implies !precedes(
        code_points(#[trigger] sorted[j]),
        code_points(#[trigger] sorted[i]),
    ) by {
        assert(order[i] != order[j]);
        assert(text_keys(texts)[order[i] as int].first == sorted[i]);
        assert(text_keys(texts)[order[j] as int].first == sorted[j]);
    }
    order
}

} // verus!
