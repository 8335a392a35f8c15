//! Text as sequences of characters: folding, searching, splitting and the
//! rendering of numbers.

use vstd::prelude::*;

verus! {

/// `String::push` appends one character.
pub assume_specification[ String::push ](text: &mut String, character: char)
    ensures
        final(text)@ == old(text)@.push(character),
;

/// A text in lower case, in the sense of Unicode.
pub uninterp spec fn lowercase(text: Seq<char>) -> Seq<char>;

/// `str::to_lowercase` gives the lower case of a text, in the sense of Unicode
/// and of no language in particular. What is claimed is only that the text
/// alone decides the result.
pub assume_specification[ str::to_lowercase ](text: &str) -> (lower: String)
    ensures
        lower@ == lowercase(text@),
;

/// Whether a character is a letter or a digit, in the sense of Unicode.
pub uninterp spec fn is_alphanumeric_char(character: char) -> bool;

/// `char::is_alphanumeric` tells letters and digits from other characters, in
/// the sense of Unicode. What is claimed is only that the character alone
/// decides.
pub assume_specification[ char::is_alphanumeric ](character: char) -> (alphanumeric: bool)
    ensures
        alphanumeric == is_alphanumeric_char(character),
;

/// A character in lower case, which can be several characters.
pub uninterp spec fn lower_chars(character: char) -> Seq<char>;

/// `char::to_lowercase` gives the lower case of a character, in the sense of
/// Unicode. What is claimed is only that the character alone decides the
/// result.
#[verifier::external_body]
pub(crate) fn lower_of(character: char) -> (lower: Vec<char>)
    ensures
        lower@ == lower_chars(character),
{
    character.to_lowercase().collect()
}

/// The characters of `text`, in order.
pub fn chars_of(text: &str) -> (chars: Vec<char>)
    ensures
        chars@ == text@,
{
    let mut chars: Vec<char> = Vec::new();
    for character in it: text.chars()
        invariant
            it.seq() == text@,
            chars@ == text@.take(it.index()),
    {
        proof {
            assert(text@.take(it.index() + 1) =~= text@.take(it.index()).push(text@[it.index()]));
        }
        chars.push(character);
    }
    proof {
        assert(text@.take(text@.len() as int) =~= text@);
    }
    chars
}

/// The text made of `chars`.
pub fn text_of(chars: &Vec<char>) -> (text: String)
    ensures
        text@ == chars@,
{
    let mut text = String::new();
    let mut at: usize = 0;
    while at < chars.len()
        invariant
            at <= chars.len(),
            text@ == chars@.take(at as int),
        decreases chars.len() - at,
    {
        text.push(chars[at]);
        at += 1;
        proof {
            assert(chars@.take(at as int) =~= chars@.take(at - 1).push(chars@[at - 1]));
        }
    }
    proof {
        assert(chars@.take(at as int) =~= chars@);
    }
    text
}

/// Whether two texts hold the same characters.
pub fn same_text(left: &str, right: &str) -> (same: bool)
    ensures
        same == (left@ == right@),
{
    let left = chars_of(left);
    let right = chars_of(right);
    same_chars(&left, &right)
}

/// Whether two character lists are equal.
pub fn same_chars(left: &Vec<char>, right: &Vec<char>) -> (same: bool)
    ensures
        same == (left@ == right@),
{
    if left.len() != right.len() {
        return false;
    }
    let mut at: usize = 0;
    while at < left.len()
        invariant
            at <= left.len(),
            left.len() == right.len(),
            forall|i: int| 0 <= i < at ==> left[i] == right[i],
        decreases left.len() - at,
    {
        if left[at] != right[at] {
            return false;
        }
        at += 1;
    }
    proof {
        assert(left@ =~= right@);
    }
    true
}

/// `A` to `Z` in lower case; any other character as it is.
pub open spec fn ascii_lower(character: char) -> char {
    if 'A' <= character <= 'Z' {
        (character as int + 32) as char
    } else {
        character
    }
}

/// Every character of `text` folded by [`ascii_lower`].
pub open spec fn ascii_folded(text: Seq<char>) -> Seq<char> {
    text.map_values(|character: char| ascii_lower(character))
}

/// Folds one character.
pub fn fold_char(character: char) -> (folded: char)
    ensures
        folded == ascii_lower(character),
{
    if 'A' <= character && character <= 'Z' {
        ((character as u8) + 32) as char
    } else {
        character
    }
}

/// Folds a whole text.
pub fn fold_text(text: &str) -> (folded: Vec<char>)
    ensures
        folded@ == ascii_folded(text@),
{
    let chars = chars_of(text);
    let mut folded: Vec<char> = Vec::new();
    let mut at: usize = 0;
    while at < chars.len()
        invariant
            at <= chars.len(),
            chars@ == text@,
            folded@ == ascii_folded(text@).take(at as int),
        decreases chars.len() - at,
    {
        folded.push(fold_char(chars[at]));
        at += 1;
        proof {
            let all = ascii_folded(text@);
            assert(all.take(at as int) =~= all.take(at - 1).push(all[at - 1]));
        }
    }
    proof {
        let all = ascii_folded(text@);
        assert(all.take(at as int) =~= all);
    }
    folded
}

/// Whether two texts are equal once `A` to `Z` are folded.
pub fn same_folded(left: &str, right: &str) -> (same: bool)
    ensures
        same == (ascii_folded(left@) == ascii_folded(right@)),
{
    let left = fold_text(left);
    let right = fold_text(right);
    same_chars(&left, &right)
}

/// Whether `part` stands in `text` from position `at` on.
pub open spec fn occurs_at(text: Seq<char>, part: Seq<char>, at: int) -> bool {
    0 <= at && at + part.len() <= text.len() && text.subrange(at, at + part.len()) == part
}

/// Whether `part` stands anywhere in `text`.
pub open spec fn occurs(text: Seq<char>, part: Seq<char>) -> bool {
    exists|at: int| #[trigger] occurs_at(text, part, at)
}

/// Whether `text` starts with `part`.
pub open spec fn begins(text: Seq<char>, part: Seq<char>) -> bool {
    occurs_at(text, part, 0)
}

/// Whether `text` ends with `part`.
pub open spec fn ends(text: Seq<char>, part: Seq<char>) -> bool {
    occurs_at(text, part, text.len() - part.len())
}

/// Decides [`occurs_at`].
pub fn stands_at(text: &Vec<char>, part: &Vec<char>, at: usize) -> (found: bool)
    ensures
        found == occurs_at(text@, part@, at as int),
{
    if at > text.len() || part.len() > text.len() - at {
        return false;
    }
    let mut offset: usize = 0;
    while offset < part.len()
        invariant
            at + part.len() <= text.len(),
            offset <= part.len(),
            forall|i: int| 0 <= i < offset ==> text[at + i] == part[i],
        decreases part.len() - offset,
    {
        if text[at + offset] != part[offset] {
            proof {
                assert(text@.subrange(at as int, at + part.len())[offset as int] != part@[offset as int]);
            }
            return false;
        }
        offset += 1;
    }
    proof {
        assert(text@.subrange(at as int, at + part.len()) =~= part@);
    }
    true
}

/// Decides [`begins`].
pub fn starts_with(text: &str, part: &str) -> (found: bool)
    ensures
        found == begins(text@, part@),
{
    let text = chars_of(text);
    let part = chars_of(part);
    stands_at(&text, &part, 0)
}

/// Decides [`ends`].
pub fn ends_with(text: &str, part: &str) -> (found: bool)
    ensures
        found == ends(text@, part@),
{
    let text = chars_of(text);
    let part = chars_of(part);
    if part.len() > text.len() {
        return false;
    }
    stands_at(&text, &part, text.len() - part.len())
}

/// Decides [`occurs`].
pub fn holds_part(text: &Vec<char>, part: &Vec<char>) -> (found: bool)
    ensures
        found == occurs(text@, part@),
{
    if part.len() > text.len() {
        return false;
    }
    let limit: usize = text.len() - part.len();
    let mut at: usize = 0;
    while at < limit
        invariant
            at <= limit,
            limit == text.len() - part.len(),
            forall|i: int| 0 <= i < at ==> !#[trigger] occurs_at(text@, part@, i),
        decreases limit - at,
    {
        if stands_at(text, part, at) {
            return true;
        }
        at += 1;
    }
    stands_at(text, part, limit)
}

/// The character of a decimal digit.
pub open spec fn digit(value: nat) -> char {
    ('0' as int + value) as char
}

/// A number in decimal notation, without leading zeros.
pub open spec fn decimal(value: nat) -> Seq<char>
    decreases value,
{
    if value < 10 {
        seq![digit(value)]
    } else {
        decimal(value / 10).push(digit(value % 10))
    }
}

/// Appends `value` in decimal notation.
pub fn push_decimal(text: &mut String, value: u64)
    ensures
        final(text)@ == old(text)@ + decimal(value as nat),
    decreases value,
{
    let last = (48 + (value % 10) as u8) as char;
    if value >= 10 {
        push_decimal(text, value / 10);
    }
    text.push(last);
}

/// `value` in decimal notation.
pub fn decimal_text(value: u64) -> (text: String)
    ensures
        text@ == decimal(value as nat),
{
    let mut text = String::new();
    push_decimal(&mut text, value);
    text
}

/// The texts one after the other.
pub fn join_two(first: &str, second: &str) -> (text: String)
    ensures
        text@ == first@ + second@,
{
    first.to_owned().concat(second)
}

/// The texts one after the other.
pub fn join_three(first: &str, second: &str, third: &str) -> (text: String)
    ensures
        text@ == first@ + second@ + third@,
{
    first.to_owned().concat(second).concat(third)
}

/// Whether a character is white space in the sense of Unicode.
pub open spec fn is_white(character: char) -> bool {
    ||| '\u{9}' <= character <= '\u{d}'
    ||| character == ' '
    ||| character == '\u{85}'
    ||| character == '\u{a0}'
    ||| character == '\u{1680}'
    ||| '\u{2000}' <= character <= '\u{200a}'
    ||| character == '\u{2028}'
    ||| character == '\u{2029}'
    ||| character == '\u{202f}'
    ||| character == '\u{205f}'
    ||| character == '\u{3000}'
}

/// Decides [`is_white`].
pub fn is_white_space(character: char) -> (white: bool)
    ensures
        white == is_white(character),
{
    '\u{9}' <= character && character <= '\u{d}' || character == ' ' || character == '\u{85}'
        || character == '\u{a0}' || character == '\u{1680}' || '\u{2000}' <= character && character
        <= '\u{200a}' || character == '\u{2028}' || character == '\u{2029}' || character == '\u{202f}'
        || character == '\u{205f}' || character == '\u{3000}'
}

/// A text without the white space at its start.
pub open spec fn trimmed_start(text: Seq<char>) -> Seq<char>
    decreases text.len(),
{
    if text.len() > 0 && is_white(text[0]) {
        trimmed_start(text.drop_first())
    } else {
        text
    }
}

/// A text without the white space at its end.
pub open spec fn trimmed_end(text: Seq<char>) -> Seq<char>
    decreases text.len(),
{
    if text.len() > 0 && is_white(text.last()) {
        trimmed_end(text.drop_last())
    } else {
        text
    }
}

/// A text without the white space around it.
pub open spec fn trimmed(text: Seq<char>) -> Seq<char> {
    trimmed_end(trimmed_start(text))
}

/// A part of a character list.
pub fn part_of(text: &Vec<char>, start: usize, end: usize) -> (part: Vec<char>)
    requires
        start <= end <= text.len(),
    ensures
        part@ == text@.subrange(start as int, end as int),
{
    let mut part: Vec<char> = Vec::new();
    let mut at: usize = start;
    while at < end
        invariant
            start <= at <= end <= text.len(),
            part@ == text@.subrange(start as int, at as int),
        decreases end - at,
    {
        part.push(text[at]);
        at += 1;
        proof {
            assert(text@.subrange(start as int, at as int) =~= text@.subrange(
                start as int,
                at - 1,
            ).push(text@[at - 1]));
        }
    }
    part
}

/// Removes the white space around a text.
pub fn trim(text: &Vec<char>) -> (result: Vec<char>)
    ensures
        result@ == trimmed(text@),
{
    let mut start: usize = 0;
    proof {
        assert(text@.skip(0) =~= text@);
    }
    while start < text.len() && is_white_space(text[start])
        invariant
            start <= text.len(),
            trimmed_start(text@) == trimmed_start(text@.skip(start as int)),
        decreases text.len() - start,
    {
        proof {
            assert(text@.skip(start as int).drop_first() =~= text@.skip(start + 1));
        }
        start += 1;
    }
    let mut end: usize = text.len();
    proof {
        assert(text@.skip(start as int) == trimmed_start(text@));
        assert(text@.subrange(start as int, end as int) =~= text@.skip(start as int));
    }
    while end > start && is_white_space(text[end - 1])
        invariant
            start <= end <= text.len(),
            trimmed(text@) == trimmed_end(text@.subrange(start as int, end as int)),
        decreases end,
    {
        proof {
            assert(text@.subrange(start as int, end as int).drop_last() =~= text@.subrange(
                start as int,
                end - 1,
            ));
        }
        end -= 1;
    }
    part_of(text, start, end)
}

/// The parts of a text between the separators. There is always at least one.
pub open spec fn split_at_each(text: Seq<char>, separator: char) -> Seq<Seq<char>>
    decreases text.len(),
{
    if text.len() == 0 {
        seq![Seq::<char>::empty()]
    } else {
        let before = split_at_each(text.drop_last(), separator);
        if text.last() == separator {
            before.push(Seq::empty())
        } else {
            before.drop_last().push(before.last().push(text.last()))
        }
    }
}

/// A split always has a part.
pub proof fn split_has_a_part(text: Seq<char>, separator: char)
    ensures
        split_at_each(text, separator).len() > 0,
    decreases text.len(),
{
    if text.len() > 0 {
        split_has_a_part(text.drop_last(), separator);
    }
}

/// The characters of each of `parts`.
pub open spec fn views(parts: Seq<Vec<char>>) -> Seq<Seq<char>> {
    parts.map_values(|part: Vec<char>| part@)
}

/// Splits a text at each separator.
pub fn split(text: &Vec<char>, separator: char) -> (parts: Vec<Vec<char>>)
    ensures
        views(parts@) == split_at_each(text@, separator),
        parts.len() > 0,
{
    let mut parts: Vec<Vec<char>> = Vec::new();
    let mut open: Vec<char> = Vec::new();
    let mut at: usize = 0;
    proof {
        assert(views(parts@).push(open@) =~= seq![Seq::<char>::empty()]);
    }
    while at < text.len()
        invariant
            at <= text.len(),
            views(parts@).push(open@) == split_at_each(text@.take(at as int), separator),
        decreases text.len() - at,
    {
        let character = text[at];
        let ghost before = views(parts@).push(open@);
        proof {
            assert(text@.take(at + 1).drop_last() =~= text@.take(at as int));
            assert(before.drop_last() =~= views(parts@));
        }
        if character == separator {
            parts.push(open);
            open = Vec::new();
            proof {
                assert(views(parts@).push(open@) =~= before.push(Seq::empty()));
            }
        } else {
            open.push(character);
        }
        at += 1;
    }
    proof {
        assert(text@.take(at as int) =~= text@);
    }
    let ghost done = views(parts@).push(open@);
    parts.push(open);
    proof {
        assert(views(parts@) =~= done);
    }
    parts
}

/// A text in which every `from` is a `to`.
pub open spec fn with_replaced(text: Seq<char>, from: char, to: char) -> Seq<char> {
    text.map_values(
        |character: char|
            if character == from {
                to
            } else {
                character
            },
    )
}

/// Replaces every `from` by `to`.
pub fn replace_char(text: &Vec<char>, from: char, to: char) -> (result: Vec<char>)
    ensures
        result@ == with_replaced(text@, from, to),
{
    let mut result: Vec<char> = Vec::new();
    let mut at: usize = 0;
    while at < text.len()
        invariant
            at <= text.len(),
            result@ == with_replaced(text@, from, to).take(at as int),
        decreases text.len() - at,
    {
        let character = text[at];
        if character == from {
            result.push(to);
        } else {
            result.push(character);
        }
        at += 1;
        proof {
            let all = with_replaced(text@, from, to);
            assert(all.take(at as int) =~= all.take(at - 1).push(all[at - 1]));
        }
    }
    proof {
        let all = with_replaced(text@, from, to);
        assert(all.take(at as int) =~= all);
    }
    result
}

/// The texts with `between` between each two.
pub open spec fn joined_with(texts: Seq<Seq<char>>, between: Seq<char>) -> Seq<char>
    decreases texts.len(),
{
    if texts.len() == 0 {
        Seq::empty()
    } else if texts.len() == 1 {
        texts[0]
    } else {
        joined_with(texts.drop_last(), between) + between + texts.last()
    }
}

/// The characters of each of `texts`.
pub open spec fn text_views(texts: Seq<String>) -> Seq<Seq<char>> {
    texts.map_values(|text: String| text@)
}

/// Joins texts with `between` between each two.
pub fn join_texts(texts: &Vec<String>, between: &str) -> (result: String)
    ensures
        result@ == joined_with(text_views(texts@), between@),
{
    let mut result = String::new();
    let mut at: usize = 0;
    while at < texts.len()
        invariant
            at <= texts.len(),
            result@ == joined_with(text_views(texts@).take(at as int), between@),
        decreases texts.len() - at,
    {
        proof {
            let all = text_views(texts@);
            assert(all.take(at + 1).drop_last() =~= all.take(at as int));
            if at == 0 {
                assert(Seq::<char>::empty() + texts@[0]@ =~= texts@[0]@);
            }
        }
        if at > 0 {
            result.append(between);
        }
        result.append(&texts[at]);
        at += 1;
    }
    proof {
        let all = text_views(texts@);
        assert(all.take(at as int) =~= all);
    }
    result
}

/// Whether `text` is `word` but for letters that are capitals in `text`.
pub open spec fn spells(text: Seq<char>, word: Seq<char>) -> bool {
    text.len() == word.len() && forall|i: int|
        #![trigger text[i]]
        #![trigger word[i]]
        0 <= i < text.len() ==> text[i] == word[i] || 'A' <= text[i] <= 'Z' && text[i] as int + 32
            == word[i] as int
}

/// Folding keeps the length and every character but the capitals `A` to `Z`,
/// which become the small letters.
pub proof fn folding_changes_only_capitals(text: Seq<char>)
    ensures
        ascii_folded(text).len() == text.len(),
        forall|i: int|
            0 <= i < text.len() && 'A' <= text[i] <= 'Z' ==> #[trigger] ascii_folded(text)[i] as int
                == text[i] as int + 32,
        forall|i: int|
            0 <= i < text.len() && !('A' <= text[i] <= 'Z') ==> #[trigger] ascii_folded(text)[i]
                == text[i],
        spells(text, ascii_folded(text)),
{
}

/// A text folds to a word without capitals exactly where it spells that word.
pub proof fn folded_words_are_spelled(text: Seq<char>, word: Seq<char>)
    requires
        forall|i: int| 0 <= i < word.len() ==> !('A' <= #[trigger] word[i] <= 'Z'),
    ensures
        ascii_folded(text) == word <==> spells(text, word),
{
    if spells(text, word) {
        assert forall|i: int| 0 <= i < text.len() implies ascii_folded(text)[i] == word[i] by {
            assert(text[i] == word[i] || 'A' <= text[i] <= 'Z' && text[i] as int + 32
                == word[i] as int);
        }
        assert(ascii_folded(text) =~= word);
    }
}

/// The parts of a text hold no separator, and with a separator between each two
/// they are the text again.
pub proof fn split_parts_make_the_text(text: Seq<char>, separator: char)
    ensures
        split_at_each(text, separator).len() > 0,
        forall|i: int|
            0 <= i < split_at_each(text, separator).len() ==> !(#[trigger] split_at_each(
                text,
                separator,
            )[i]).contains(separator),
        joined_with(split_at_each(text, separator), seq![separator]) == text,
    decreases text.len(),
{
    let parts = split_at_each(text, separator);
    if text.len() == 0 {
        assert(parts[0] =~= text);
    } else {
        let shorter = text.drop_last();
        split_parts_make_the_text(shorter, separator);
        let before = split_at_each(shorter, separator);
        assert(shorter.push(text.last()) =~= text);
        if text.last() == separator {
            assert(parts.drop_last() =~= before);
            assert(joined_with(before, seq![separator]) + seq![separator] + Seq::<char>::empty()
                =~= text);
        } else {
            let grown = before.last().push(text.last());
            assert(!grown.contains(separator)) by {
                if grown.contains(separator) {
                    let i = choose|i: int| 0 <= i < grown.len() && grown[i] == separator;
                    assert(i < before.last().len());
                    assert(before.last()[i] == separator);
                    assert(before[before.len() - 1].contains(separator));
                }
            }
            assert(parts.drop_last() =~= before.drop_last());
            if before.len() == 1 {
                assert(parts[0] =~= text);
            } else {
                let head = joined_with(before.drop_last(), seq![separator]);
                assert(head + seq![separator] + grown =~= (head + seq![separator]
                    + before.last()).push(text.last()));
            }
        }
    }
}

/// The last part of a split is empty exactly where a separator ends the text,
/// or nothing is there.
pub proof fn last_part_of_a_split(text: Seq<char>, separator: char)
    ensures
        split_at_each(text, separator).len() > 0,
        split_at_each(text, separator).last().len() == 0 <==> text.len() == 0 || text.last()
            == separator,
{
    split_has_a_part(text, separator);
    if text.len() > 0 {
        split_has_a_part(text.drop_last(), separator);
    }
}

/// Trimming takes white space off both ends and nothing else: what is left
/// stands in the text, has white space at neither end, and all around it is
/// white space.
pub proof fn trimming_takes_only_white_space(text: Seq<char>) -> (start: int)
    ensures
        0 <= start <= start + trimmed(text).len() <= text.len(),
        trimmed(text) == text.subrange(start, start + trimmed(text).len()),
        trimmed(text).len() > 0 ==> !is_white(trimmed(text)[0]) && !is_white(trimmed(text).last()),
        forall|i: int| 0 <= i < start ==> is_white(#[trigger] text[i]),
        forall|i: int|
            start + trimmed(text).len() <= i < text.len() ==> is_white(#[trigger] text[i]),
{
    let start = start_of_text(text);
    let rest = trimmed_start(text);
    end_of_text(rest);
    assert(trimmed(text) =~= text.subrange(start, start + trimmed(text).len()));
    assert forall|i: int| start + trimmed(text).len() <= i < text.len() implies is_white(
        #[trigger] text[i],
    ) by {
        assert(rest[i - start] == text[i]);
    }
    if trimmed(text).len() > 0 {
        assert(trimmed(text)[0] == rest[0]);
    }
    start
}

proof fn start_of_text(text: Seq<char>) -> (start: int)
    ensures
        0 <= start <= text.len(),
        trimmed_start(text) == text.skip(start),
        start < text.len() ==> !is_white(text[start]),
        forall|i: int| 0 <= i < start ==> is_white(#[trigger] text[i]),
    decreases text.len(),
{
    if text.len() > 0 && is_white(text[0]) {
        let rest = text.drop_first();
        let start = start_of_text(rest);
        assert(rest.skip(start) =~= text.skip(start + 1));
        assert forall|i: int| 0 <= i < start + 1 implies is_white(#[trigger] text[i]) by {
            if i > 0 {
                assert(rest[i - 1] == text[i]);
            }
        }
        if start + 1 < text.len() {
            assert(rest[start] == text[start + 1]);
        }
        start + 1
    } else {
        assert(text.skip(0) =~= text);
        0
    }
}

proof fn end_of_text(text: Seq<char>)
    ensures
        trimmed_end(text).len() <= text.len(),
        trimmed_end(text) == text.take(trimmed_end(text).len() as int),
        trimmed_end(text).len() > 0 ==> !is_white(trimmed_end(text).last()),
        forall|i: int| trimmed_end(text).len() <= i < text.len() ==> is_white(#[trigger] text[i]),
    decreases text.len(),
{
    if text.len() > 0 && is_white(text.last()) {
        let shorter = text.drop_last();
        end_of_text(shorter);
        assert(shorter.take(trimmed_end(text).len() as int) =~= text.take(
            trimmed_end(text).len() as int,
        ));
        assert forall|i: int| trimmed_end(text).len() <= i < text.len() implies is_white(
            #[trigger] text[i],
        ) by {
            if i < shorter.len() {
                assert(shorter[i] == text[i]);
            }
        }
    } else {
        assert(text.take(text.len() as int) =~= text);
    }
}

/// Something, a part, and something more hold the part. What starts with it
/// begins with it, and what stops with it ends with it.
pub proof fn parts_stand_inside(before: Seq<char>, part: Seq<char>, after: Seq<char>)
    ensures
        occurs(before + part + after, part),
        begins(part + after, part),
        ends(before + part, part),
{
    let whole = before + part + after;
    let at = before.len() as int;
    assert(whole.subrange(at, at + part.len()) =~= part);
    assert(occurs_at(whole, part, at));
    assert((part + after).subrange(0, part.len() as int) =~= part);
    assert((before + part).subrange(at, at + part.len()) =~= part);
}

/// A text that holds a part is something, the part, and something more. Where
/// it begins with the part nothing comes first; where it ends with it, nothing
/// comes last.
pub proof fn texts_are_made_of_their_parts(text: Seq<char>, part: Seq<char>) -> (around: (
    Seq<char>,
    Seq<char>,
))
    ensures
        begins(text, part) ==> text == part + text.skip(part.len() as int),
        ends(text, part) ==> text == text.take(text.len() - part.len()) + part,
        occurs(text, part) ==> text == around.0 + part + around.1,
{
    if begins(text, part) {
        assert(text =~= text.subrange(0, part.len() as int) + text.skip(part.len() as int));
    }
    if ends(text, part) {
        let at = text.len() - part.len();
        assert(text =~= text.take(at) + text.subrange(at, at + part.len()));
    }
    if occurs(text, part) {
        let at = choose|at: int| #[trigger] occurs_at(text, part, at);
        assert(text =~= text.take(at) + text.subrange(at, at + part.len()) + text.skip(
            at + part.len(),
        ));
        (text.take(at), text.skip(at + part.len()))
    } else {
        (text, text)
    }
}

/// The value of a number written in decimal digits.
pub open spec fn decimal_value(text: Seq<char>) -> int
    decreases text.len(),
{
    if text.len() == 0 {
        0
    } else {
        decimal_value(text.drop_last()) * 10 + (text.last() as int - '0' as int)
    }
}

/// A number in decimal notation is made of digits, has the value of the number,
/// and starts with a zero only if it is zero.
pub proof fn written_numbers_are_read_back(value: nat)
    ensures
        decimal(value).len() > 0,
        forall|i: int| 0 <= i < decimal(value).len() ==> '0' <= #[trigger] decimal(value)[i] <= '9',
        decimal_value(decimal(value)) == value,
        value > 0 ==> decimal(value)[0] != '0',
        value == 0 ==> decimal(value) == seq!['0'],
    decreases value,
{
    let text = decimal(value);
    if value >= 10 {
        let rest = value / 10;
        written_numbers_are_read_back(rest);
        assert(text.drop_last() =~= decimal(rest));
        assert(text.last() as int == '0' as int + value % 10);
        assert forall|i: int| 0 <= i < text.len() implies '0' <= #[trigger] text[i] <= '9' by {
            if i < decimal(rest).len() {
                assert(text[i] == decimal(rest)[i]);
            }
        }
        assert(text[0] == decimal(rest)[0]);
    } else {
        assert(text =~= seq![digit(value)]);
        assert(text.drop_last() =~= Seq::<char>::empty());
        assert(decimal_value(text.drop_last()) == 0);
    }
}

/// A text without the separator is its own only part, and what is written
/// before a separator is the first part.
pub proof fn written_parts_are_split_off(first: Seq<char>, separator: char, rest: Seq<char>)
    requires
        !first.contains(separator),
    ensures
        split_at_each(first, separator) == seq![first],
        split_at_each(first.push(separator) + rest, separator) == seq![first] + split_at_each(
            rest,
            separator,
        ),
    decreases first.len() + rest.len(),
{
    if first.len() == 0 {
        assert(first =~= Seq::<char>::empty());
        assert(split_at_each(first, separator) =~= seq![first]);
    } else {
        let shorter = first.drop_last();
        assert(!shorter.contains(separator)) by {
            if shorter.contains(separator) {
                let i = choose|i: int| 0 <= i < shorter.len() && shorter[i] == separator;
                assert(first[i] == separator);
            }
        }
        assert(first.last() != separator) by {
            assert(first.contains(first.last()));
        }
        written_parts_are_split_off(shorter, separator, Seq::empty());
        assert(shorter.push(first.last()) =~= first);
        assert(split_at_each(first, separator) =~= seq![first]);
    }
    let text = first.push(separator) + rest;
    if rest.len() == 0 {
        assert(text =~= first.push(separator));
        assert(text.drop_last() =~= first);
        assert(split_at_each(text, separator) =~= seq![first] + split_at_each(rest, separator));
    } else {
        let less = rest.drop_last();
        written_parts_are_split_off(first, separator, less);
        assert(text.drop_last() =~= first.push(separator) + less);
        let tail = split_at_each(less, separator);
        split_has_a_part(less, separator);
        assert((seq![first] + tail).drop_last() =~= seq![first] + tail.drop_last());
        assert(split_at_each(text, separator) =~= seq![first] + split_at_each(rest, separator));
    }
}

} // verus!
