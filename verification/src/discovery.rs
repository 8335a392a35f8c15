//! What the game stores left on this machine: libraries, manifests and the
//! identity of what they describe.

use crate::digest::{hex, hex_digit, hex_is_injective, hex_text, padded_hex, push_hex};
use crate::model::{
    same_game, DllInstallation, DllInstallationId, DllMetadata, FileName, GameId, GameInstall,
    StoreKind,
};
use crate::order::{is_stable_order, stable_order, text_keys, OrderKey};
use crate::paths::{
    begins_with_drive, has_drive, has_name, joined, last_part, led_to, normal_form, readable,
    readable_text, FilePath, PathStyle,
};
use crate::text::{
    ascii_folded, begins, chars_of, ends, ends_with, fold_text, join_texts, join_three, join_two,
    joined_with, lowercase, replace_char, same_chars, same_folded, same_text, starts_with, text_of,
    text_views, with_replaced,
};
use crate::tools::RegistryView;
use vstd::prelude::*;

verus! {

/// How the search of one store ended.
#[derive(Clone, Copy, Debug, PartialEq, Eq, Structural)]
pub enum DiscoveryStatus {
    Found,
    NotDetected,
    Error,
}

/// What the user is told about the search of one store.
#[derive(Debug, PartialEq, Eq)]
pub struct StoreDiscoveryReport {
    pub store: String,
    pub status: DiscoveryStatus,
    pub games_found: usize,
    pub detail: Option<String>,
}

/// The games that were found, and one report for each store.
#[derive(Debug, PartialEq, Eq)]
pub struct DiscoveryOutcome {
    pub games: Vec<GameInstall>,
    pub reports: Vec<StoreDiscoveryReport>,
}

/// The text of a quoted token from behind its opening quote, and what follows
/// its closing quote. A backslash before a quote makes the quote part of the
/// token. A token that is not closed runs to the end.
pub open spec fn token_at(text: Seq<char>) -> (Seq<char>, Seq<char>)
    decreases text.len(),
{
    if text.len() == 0 {
        (Seq::empty(), Seq::empty())
    } else if text[0] == '"' {
        (Seq::empty(), text.skip(1))
    } else if text[0] == '\\' && text.len() > 1 && text[1] == '"' {
        let (token, rest) = token_at(text.skip(2));
        (seq!['"'] + token, rest)
    } else {
        let (token, rest) = token_at(text.skip(1));
        (seq![text[0]] + token, rest)
    }
}

proof fn token_rest_is_shorter(text: Seq<char>)
    ensures
        token_at(text).1.len() <= text.len(),
    decreases text.len(),
{
    if text.len() > 0 && text[0] != '"' {
        if text[0] == '\\' && text.len() > 1 && text[1] == '"' {
            token_rest_is_shorter(text.skip(2));
        } else {
            token_rest_is_shorter(text.skip(1));
        }
    }
}

/// All quoted tokens of a text, in order.
pub open spec fn tokens_of(text: Seq<char>) -> Seq<Seq<char>>
    decreases text.len(),
{
    if text.len() == 0 {
        Seq::empty()
    } else if text[0] != '"' {
        tokens_of(text.skip(1))
    } else {
        let (token, rest) = token_at(text.skip(1));
        if rest.len() < text.len() {
            seq![token] + tokens_of(rest)
        } else {
            seq![token]
        }
    }
}

/// All quoted tokens of a text, in order.
pub fn quoted_tokens(contents: &str) -> (tokens: Vec<String>)
    ensures
        text_views(tokens@) == tokens_of(contents@),
{
    let chars = chars_of(contents);
    let ghost all = tokens_of(contents@);
    let mut tokens: Vec<String> = Vec::new();
    let mut at: usize = 0;
    proof {
        assert(chars@.skip(0) =~= contents@);
        assert(text_views(tokens@) + tokens_of(chars@.skip(0)) =~= all);
    }
    while at < chars.len()
        invariant
            at <= chars.len(),
            chars@ == contents@,
            all == tokens_of(contents@),
            text_views(tokens@) + tokens_of(chars@.skip(at as int)) == all,
        decreases chars.len() - at,
    {
        let ghost here = chars@.skip(at as int);
        proof {
            assert(here.skip(1) =~= chars@.skip(at + 1));
            assert(here[0] == chars@[at as int]);
        }
        if chars[at] != '"' {
            at += 1;
        } else {
            at += 1;
            let ghost body = chars@.skip(at as int);
            let ghost whole = token_at(body);
            let mut token = String::new();
            let mut closed = false;
            proof {
                token_rest_is_shorter(body);
                assert(token@ + token_at(body).0 =~= whole.0);
            }
            while at < chars.len() && !closed
                invariant
                    at <= chars.len(),
                    whole.1.len() <= body.len(),
                    !closed ==> token@ + token_at(chars@.skip(at as int)).0 == whole.0,
                    !closed ==> token_at(chars@.skip(at as int)).1 == whole.1,
                    closed ==> token@ == whole.0 && chars@.skip(at as int) == whole.1,
                decreases chars.len() - at,
            {
                let ghost rest = chars@.skip(at as int);
                proof {
                    assert(rest[0] == chars@[at as int]);
                    assert(rest.skip(1) =~= chars@.skip(at + 1));
                }
                let character = chars[at];
                if character == '"' {
                    closed = true;
                    proof {
                        assert(token@ + Seq::<char>::empty() =~= token@);
                    }
                    at += 1;
                } else if character == '\\' && at + 1 < chars.len() && chars[at + 1] == '"' {
                    proof {
                        assert(rest[1] == chars@[at + 1]);
                        assert(rest.skip(2) =~= chars@.skip(at + 2));
                        let tail = token_at(rest.skip(2)).0;
                        assert(token@ + (seq!['"'] + tail) =~= token@.push('"') + tail);
                    }
                    token.push('"');
                    at += 2;
                } else {
                    proof {
                        let tail = token_at(rest.skip(1)).0;
                        assert(token@ + (seq![character] + tail) =~= token@.push(character) + tail);
                    }
                    token.push(character);
                    at += 1;
                }
            }
            proof {
                if !closed {
                    assert(chars@.skip(at as int) =~= Seq::<char>::empty());
                    assert(token@ + Seq::<char>::empty() =~= token@);
                }
                assert(token@ == whole.0);
                assert(chars@.skip(at as int) =~= whole.1);
            }
            let ghost before = text_views(tokens@);
            tokens.push(token);
            proof {
                assert(text_views(tokens@) =~= before.push(whole.0));
                let later = tokens_of(whole.1);
                assert(before + (seq![whole.0] + later) =~= before.push(whole.0) + later);
            }
        }
    }
    proof {
        assert(chars@.skip(at as int) =~= Seq::<char>::empty());
        assert(text_views(tokens@) + Seq::<Seq<char>>::empty() =~= text_views(tokens@));
    }
    tokens
}

/// A text in which each pair of backslashes is one.
pub open spec fn unescaped(text: Seq<char>) -> Seq<char>
    decreases text.len(),
{
    if text.len() == 0 {
        text
    } else if text.len() >= 2 && text[0] == '\\' && text[1] == '\\' {
        seq!['\\'] + unescaped(text.skip(2))
    } else {
        seq![text[0]] + unescaped(text.skip(1))
    }
}

fn unescape(text: &Vec<char>) -> (result: Vec<char>)
    ensures
        result@ == unescaped(text@),
{
    let mut result: Vec<char> = Vec::new();
    let mut at: usize = 0;
    proof {
        assert(text@.skip(0) =~= text@);
        assert(result@ + unescaped(text@.skip(0)) =~= unescaped(text@));
    }
    while at < text.len()
        invariant
            at <= text.len(),
            result@ + unescaped(text@.skip(at as int)) == unescaped(text@),
        decreases text.len() - at,
    {
        let ghost rest = text@.skip(at as int);
        proof {
            assert(rest[0] == text@[at as int]);
            assert(rest.skip(1) =~= text@.skip(at + 1));
        }
        if at + 1 < text.len() && text[at] == '\\' && text[at + 1] == '\\' {
            proof {
                assert(rest[1] == text@[at + 1]);
                assert(rest.skip(2) =~= text@.skip(at + 2));
                let tail = unescaped(rest.skip(2));
                assert(result@ + (seq!['\\'] + tail) =~= result@.push('\\') + tail);
            }
            result.push('\\');
            at += 2;
        } else {
            proof {
                let tail = unescaped(rest.skip(1));
                assert(result@ + (seq![rest[0]] + tail) =~= result@.push(rest[0]) + tail);
            }
            result.push(text[at]);
            at += 1;
        }
    }
    proof {
        assert(text@.skip(at as int) =~= Seq::<char>::empty());
        assert(result@ + Seq::<char>::empty() =~= result@);
    }
    result
}

/// Whether a text is made of decimal digits alone.
pub open spec fn is_number(text: Seq<char>) -> bool {
    forall|i: int| 0 <= i < text.len() ==> '0' <= #[trigger] text[i] <= '9'
}

/// Whether a token and the one behind it name a library: under the key `path`,
/// or, as older files have it, a path under a number.
pub open spec fn names_library(key: Seq<char>, value: Seq<char>) -> bool {
    ||| ascii_folded(key) == "path"@
    ||| is_number(key) && (value.contains('/') || value.contains('\\'))
}

/// The libraries that a list of tokens names, in order and as they are spelled.
pub open spec fn library_texts(tokens: Seq<Seq<char>>) -> Seq<Seq<char>>
    decreases tokens.len(),
{
    if tokens.len() < 2 {
        Seq::empty()
    } else {
        let before = library_texts(tokens.drop_last());
        let key = tokens[tokens.len() - 2];
        let value = tokens.last();
        if names_library(key, value) {
            before.push(unescaped(value))
        } else {
            before
        }
    }
}

/// The paths that texts stand for.
pub open spec fn forms(style: PathStyle, texts: Seq<Seq<char>>) -> Seq<Seq<char>> {
    texts.map_values(|text: Seq<char>| normal_form(style, text))
}

/// The libraries that a list of tokens names, in order.
pub open spec fn libraries_of(style: PathStyle, tokens: Seq<Seq<char>>) -> Seq<Seq<char>> {
    forms(style, library_texts(tokens))
}

/// The paths of each of `paths`.
pub open spec fn path_views(paths: Seq<FilePath>) -> Seq<Seq<char>> {
    paths.map_values(|path: FilePath| path@)
}

/// The values of a list without those that occurred before.
pub open spec fn first_occurrences(values: Seq<Seq<char>>) -> Seq<Seq<char>>
    decreases values.len(),
{
    if values.len() == 0 {
        values
    } else {
        let before = first_occurrences(values.drop_last());
        if before.contains(values.last()) {
            before
        } else {
            before.push(values.last())
        }
    }
}

/// Leaving out what occurred before loses no value, keeps none twice, and
/// changes nothing when done again.
pub proof fn first_occurrences_are_distinct(values: Seq<Seq<char>>)
    ensures
        first_occurrences(values).no_duplicates(),
        forall|value: Seq<char>|
            first_occurrences(values).contains(value) <==> values.contains(value),
        first_occurrences(first_occurrences(values)) == first_occurrences(values),
    decreases values.len(),
{
    if values.len() > 0 {
        let shorter = values.drop_last();
        let last = values.last();
        let before = first_occurrences(shorter);
        let all = first_occurrences(values);
        first_occurrences_are_distinct(shorter);
        assert forall|value: Seq<char>| all.contains(value) <==> values.contains(value) by {
            if values.contains(value) {
                let i = choose|i: int| 0 <= i < values.len() && values[i] == value;
                if i < shorter.len() {
                    assert(shorter[i] == value);
                    assert(shorter.contains(value));
                    assert(before.contains(value));
                    let j = choose|j: int| 0 <= j < before.len() && before[j] == value;
                    assert(all[j] == value);
                } else if !before.contains(last) {
                    assert(all.last() == value);
                }
            }
            if all.contains(value) {
                let i = choose|i: int| 0 <= i < all.len() && all[i] == value;
                if i < before.len() {
                    assert(before[i] == value);
                    assert(shorter.contains(value));
                    let j = choose|j: int| 0 <= j < shorter.len() && shorter[j] == value;
                    assert(values[j] == value);
                } else {
                    assert(values[values.len() - 1] == value);
                }
            }
        }
        if !before.contains(last) {
            assert(all.drop_last() =~= before);
        }
    } else {
        assert(first_occurrences(values) =~= values);
    }
}

/// The paths without those that occurred before.
pub fn deduplicate_roots(roots: Vec<FilePath>) -> (kept: Vec<FilePath>)
    ensures
        path_views(kept@) == first_occurrences(path_views(roots@)),
{
    let ghost given = path_views(roots@);
    let mut kept: Vec<FilePath> = Vec::new();
    let mut at: usize = 0;
    proof {
        assert(path_views(kept@) =~= first_occurrences(given.take(0)));
    }
    while at < roots.len()
        invariant
            at <= roots.len(),
            given == path_views(roots@),
            path_views(kept@) == first_occurrences(given.take(at as int)),
        decreases roots.len() - at,
    {
        proof {
            assert(given.take(at + 1).drop_last() =~= given.take(at as int));
            assert(given[at as int] == roots@[at as int]@);
        }
        let mut seen = false;
        let mut earlier: usize = 0;
        while earlier < kept.len() && !seen
            invariant
                earlier <= kept.len(),
                at < roots.len(),
                seen ==> path_views(kept@).contains(roots@[at as int]@),
                !seen ==> forall|i: int|
                    0 <= i < earlier ==> #[trigger] path_views(kept@)[i] != roots@[at as int]@,
            decreases kept.len() - earlier,
        {
            if kept[earlier].same(&roots[at]) {
                proof {
                    assert(path_views(kept@)[earlier as int] == roots@[at as int]@);
                }
                seen = true;
            }
            earlier += 1;
        }
        if !seen {
            let ghost before = path_views(kept@);
            kept.push(roots[at].clone());
            proof {
                assert(path_views(kept@) =~= before.push(roots@[at as int]@));
            }
        }
        at += 1;
    }
    proof {
        assert(given.take(at as int) =~= given);
    }
    kept
}

fn has_separator(text: &Vec<char>) -> (found: bool)
    ensures
        found == (text@.contains('/') || text@.contains('\\')),
{
    let mut at: usize = 0;
    while at < text.len()
        invariant
            at <= text.len(),
            forall|i: int| 0 <= i < at ==> #[trigger] text@[i] != '/' && text@[i] != '\\',
        decreases text.len() - at,
    {
        if text[at] == '/' || text[at] == '\\' {
            proof {
                assert(text@.contains(text@[at as int]));
            }
            return true;
        }
        at += 1;
    }
    false
}

fn is_all_digits(text: &Vec<char>) -> (number: bool)
    ensures
        number == is_number(text@),
{
    let mut at: usize = 0;
    while at < text.len()
        invariant
            at <= text.len(),
            forall|i: int| 0 <= i < at ==> '0' <= #[trigger] text@[i] <= '9',
        decreases text.len() - at,
    {
        if !('0' <= text[at] && text[at] <= '9') {
            proof {
                assert(!('0' <= text@[at as int] <= '9'));
            }
            return false;
        }
        at += 1;
    }
    true
}

fn read_library_texts(contents: &str) -> (texts: Vec<String>)
    ensures
        text_views(texts@) == library_texts(tokens_of(contents@)),
{
    let tokens = quoted_tokens(contents);
    let ghost seen = text_views(tokens@);
    let mut texts: Vec<String> = Vec::new();
    let mut at: usize = 1;
    proof {
        assert(text_views(texts@) =~= Seq::<Seq<char>>::empty());
    }
    while at < tokens.len()
        invariant
            1 <= at,
            at <= tokens.len() || at == 1,
            seen == text_views(tokens@),
            text_views(texts@) == library_texts(
                seen.take(if at <= seen.len() { at as int } else { seen.len() as int }),
            ),
        decreases tokens.len() - at,
    {
        let key = chars_of(&tokens[at - 1]);
        let value = chars_of(&tokens[at]);
        proof {
            let more = seen.take(at + 1);
            assert(more.drop_last() =~= seen.take(at as int));
            assert(more[more.len() - 2] == tokens@[at - 1]@);
            assert(more.last() == tokens@[at as int]@);
        }
        if same_folded(&tokens[at - 1], "path") || is_all_digits(&key) && has_separator(&value) {
            let text = text_of(&unescape(&value));
            let ghost before = text_views(texts@);
            texts.push(text);
            proof {
                assert(text_views(texts@) =~= before.push(unescaped(value@)));
            }
        }
        proof {
            assert(ascii_folded("path"@) =~= "path"@) by {
                reveal_strlit("path");
            }
        }
        at += 1;
    }
    proof {
        if seen.len() <= 1 {
            assert(library_texts(seen) =~= Seq::<Seq<char>>::empty());
        }
        assert(seen.take(seen.len() as int) =~= seen);
    }
    texts
}

/// The texts without those that stand for a path that came before.
pub open spec fn first_spellings(style: PathStyle, texts: Seq<Seq<char>>) -> Seq<Seq<char>>
    decreases texts.len(),
{
    if texts.len() == 0 {
        texts
    } else {
        let before = first_spellings(style, texts.drop_last());
        if forms(style, before).contains(normal_form(style, texts.last())) {
            before
        } else {
            before.push(texts.last())
        }
    }
}

proof fn first_spellings_are_first_paths(style: PathStyle, texts: Seq<Seq<char>>)
    ensures
        forms(style, first_spellings(style, texts)) == first_occurrences(forms(style, texts)),
    decreases texts.len(),
{
    if texts.len() > 0 {
        let shorter = texts.drop_last();
        first_spellings_are_first_paths(style, shorter);
        assert(forms(style, texts).drop_last() =~= forms(style, shorter));
        let before = first_spellings(style, shorter);
        assert(forms(style, before.push(texts.last())) =~= forms(style, before).push(
            normal_form(style, texts.last()),
        ));
    } else {
        assert(forms(style, first_spellings(style, texts)) =~= forms(style, texts));
    }
}

fn distinct_libraries(style: PathStyle, contents: &str) -> (kept: Vec<String>)
    ensures
        text_views(kept@) == first_spellings(style, library_texts(tokens_of(contents@))),
{
    let texts = read_library_texts(contents);
    let ghost given = text_views(texts@);
    let mut kept: Vec<String> = Vec::new();
    let mut paths: Vec<FilePath> = Vec::new();
    let mut at: usize = 0;
    proof {
        assert(text_views(kept@) =~= first_spellings(style, given.take(0)));
        assert(path_views(paths@) =~= forms(style, text_views(kept@)));
    }
    while at < texts.len()
        invariant
            at <= texts.len(),
            given == text_views(texts@),
            text_views(kept@) == first_spellings(style, given.take(at as int)),
            path_views(paths@) == forms(style, text_views(kept@)),
        decreases texts.len() - at,
    {
        proof {
            assert(given.take(at + 1).drop_last() =~= given.take(at as int));
            assert(given[at as int] == texts@[at as int]@);
        }
        let path = FilePath::parse(style, &texts[at]);
        let mut seen = false;
        let mut earlier: usize = 0;
        while earlier < paths.len() && !seen
            invariant
                earlier <= paths.len(),
                seen ==> path_views(paths@).contains(path@),
                !seen ==> forall|i: int|
                    0 <= i < earlier ==> #[trigger] path_views(paths@)[i] != path@,
            decreases paths.len() - earlier,
        {
            if paths[earlier].same(&path) {
                proof {
                    assert(path_views(paths@)[earlier as int] == path@);
                }
                seen = true;
            }
            earlier += 1;
        }
        if !seen {
            let ghost before = text_views(kept@);
            let ghost paths_before = path_views(paths@);
            kept.push(texts[at].clone());
            paths.push(path);
            proof {
                assert(text_views(kept@) =~= before.push(given[at as int]));
                assert(path_views(paths@) =~= paths_before.push(path@));
                assert(path_views(paths@) =~= forms(style, text_views(kept@)));
            }
        }
        at += 1;
    }
    proof {
        assert(given.take(at as int) =~= given);
    }
    kept
}

fn parse_all(style: PathStyle, texts: &Vec<String>) -> (paths: Vec<FilePath>)
    ensures
        path_views(paths@) == forms(style, text_views(texts@)),
{
    let mut paths: Vec<FilePath> = Vec::new();
    let mut at: usize = 0;
    while at < texts.len()
        invariant
            at <= texts.len(),
            paths.len() == at,
            forall|i: int|
                0 <= i < at ==> (#[trigger] paths@[i])@ == forms(style, text_views(texts@))[i],
        decreases texts.len() - at,
    {
        paths.push(FilePath::parse(style, &texts[at]));
        at += 1;
    }
    proof {
        assert(path_views(paths@) =~= forms(style, text_views(texts@)));
    }
    paths
}

/// The libraries that a Steam library file names, in the modern or the legacy
/// form, each of them once.
pub fn steam_library_paths(style: PathStyle, contents: &str) -> (paths: Vec<FilePath>)
    ensures
        path_views(paths@) == first_occurrences(libraries_of(style, tokens_of(contents@))),
{
    let texts = distinct_libraries(style, contents);
    proof {
        first_spellings_are_first_paths(style, library_texts(tokens_of(contents@)));
    }
    parse_all(style, &texts)
}

/// What became of the attempt to read a library file. A file that is not there
/// was not read.
#[derive(Debug, PartialEq, Eq)]
pub struct LibraryRead {
    /// The path as it is shown to the user.
    pub shown: String,
    pub read: Option<Result<String, String>>,
}

/// A path as directories are compared: with `\` for either separator and without
/// regard to the case of letters.
pub open spec fn directory_key(path: Seq<char>) -> Seq<char> {
    ascii_folded(with_replaced(path, '/', '\\'))
}

/// Whether `left` and `right` are the same directory to Windows.
pub open spec fn same_directory(left: Seq<char>, right: Seq<char>) -> bool {
    directory_key(left) == directory_key(right)
}

fn key_of_directory(path: &str) -> (key: Vec<char>)
    ensures
        key@ == directory_key(path@),
{
    let text = text_of(&replace_char(&chars_of(path), '/', '\\'));
    fold_text(&text)
}

/// Whether one of `paths` is the same directory as `path`.
pub open spec fn has_directory(paths: Seq<Seq<char>>, path: Seq<char>) -> bool {
    exists|i: int| 0 <= i < paths.len() && same_directory(#[trigger] paths[i], path)
}

/// The directories of a list without those that occurred before, whatever the
/// case of their letters.
pub open spec fn distinct_directories(paths: Seq<Seq<char>>) -> Seq<Seq<char>>
    decreases paths.len(),
{
    if paths.len() == 0 {
        paths
    } else {
        let before = distinct_directories(paths.drop_last());
        if has_directory(before, paths.last()) {
            before
        } else {
            before.push(paths.last())
        }
    }
}

fn deduplicate_steam_roots(roots: Vec<String>) -> (kept: Vec<String>)
    ensures
        text_views(kept@) == distinct_directories(text_views(roots@)),
{
    let ghost given = text_views(roots@);
    let mut kept: Vec<String> = Vec::new();
    let mut at: usize = 0;
    proof {
        assert(text_views(kept@) =~= distinct_directories(given.take(0)));
    }
    while at < roots.len()
        invariant
            at <= roots.len(),
            given == text_views(roots@),
            text_views(kept@) == distinct_directories(given.take(at as int)),
        decreases roots.len() - at,
    {
        proof {
            assert(given.take(at + 1).drop_last() =~= given.take(at as int));
            assert(given[at as int] == roots@[at as int]@);
        }
        let mut seen = false;
        let mut earlier: usize = 0;
        while earlier < kept.len() && !seen
            invariant
                earlier <= kept.len(),
                at < roots.len(),
                seen ==> has_directory(text_views(kept@), roots@[at as int]@),
                !seen ==> forall|i: int|
                    0 <= i < earlier ==> !same_directory(
                        #[trigger] text_views(kept@)[i],
                        roots@[at as int]@,
                    ),
            decreases kept.len() - earlier,
        {
            if same_chars(&key_of_directory(&kept[earlier]), &key_of_directory(&roots[at])) {
                proof {
                    assert(same_directory(
                        text_views(kept@)[earlier as int],
                        roots@[at as int]@,
                    ));
                }
                seen = true;
            }
            earlier += 1;
        }
        if !seen {
            let ghost before = text_views(kept@);
            kept.push(roots[at].clone());
            proof {
                assert(text_views(kept@) =~= before.push(roots@[at as int]@));
            }
        }
        at += 1;
    }
    proof {
        assert(given.take(at as int) =~= given);
    }
    kept
}

/// Whether a character separates the parts of a path.
pub open spec fn is_separator(style: PathStyle, character: char) -> bool {
    character == '/' || style == PathStyle::Windows && character == '\\'
}

/// Where a library keeps its applications, spelled as the library is. A path
/// that ends in a separator, or is a drive alone, needs no separator.
pub open spec fn steamapps_in(style: PathStyle, library: Seq<char>) -> Seq<char> {
    if library.len() == 0 || is_separator(style, library.last()) || style == PathStyle::Windows
        && library.len() == 2 && begins_with_drive(library) {
        library + "steamapps"@
    } else {
        library.push(
            if style == PathStyle::Windows {
                '\\'
            } else {
                '/'
            },
        ) + "steamapps"@
    }
}

fn steamapps_path(style: PathStyle, library: &str) -> (path: String)
    ensures
        path@ == steamapps_in(style, library@),
{
    let chars = chars_of(library);
    let mut path = library.to_owned();
    let windows = style == PathStyle::Windows;
    let joined = chars.len() == 0 || chars[chars.len() - 1] == '/' || windows && chars[chars.len()
        - 1] == '\\' || windows && chars.len() == 2 && has_drive(&chars);
    if !joined {
        if windows {
            path.push('\\');
        } else {
            path.push('/');
        }
    }
    path.append("steamapps");
    path
}

/// The application directories of a list of libraries.
pub open spec fn steamapps_of(style: PathStyle, libraries: Seq<Seq<char>>) -> Seq<Seq<char>> {
    libraries.map_values(|library: Seq<char>| steamapps_in(style, library))
}

/// The application directories that the library files name, as they are spelled.
pub open spec fn named_directories(style: PathStyle, reads: Seq<LibraryRead>) -> Seq<Seq<char>>
    decreases reads.len(),
{
    if reads.len() == 0 {
        Seq::empty()
    } else {
        let before = named_directories(style, reads.drop_last());
        match reads.last().read {
            Some(Ok(contents)) => before + steamapps_of(
                style,
                first_spellings(style, library_texts(tokens_of(contents@))),
            ),
            _ => before,
        }
    }
}

/// What the user is told about the library files that could not be read.
pub open spec fn read_errors(reads: Seq<LibraryRead>) -> Seq<Seq<char>>
    decreases reads.len(),
{
    if reads.len() == 0 {
        Seq::empty()
    } else {
        let before = read_errors(reads.drop_last());
        match reads.last().read {
            Some(Err(error)) => before.push(reads.last().shown@ + ": "@ + error@),
            _ => before,
        }
    }
}

/// Whether one of the library files was there.
pub open spec fn any_found(reads: Seq<LibraryRead>) -> bool {
    exists|i: int| 0 <= i < reads.len() && (#[trigger] reads[i]).read is Some
}

/// The application directories of a Steam installation: its own, and those of
/// the libraries that its files name. Of those that are spelled alike but for
/// separators and the case of letters, the first stays. `steam_root` is the path
/// of the installation as the registry spells it.
pub fn steam_steamapps_dirs(style: PathStyle, steam_root: &str, reads: &Vec<LibraryRead>) -> (
    found: (Vec<FilePath>, Option<String>))
    ensures
        path_views(found.0@) == forms(
            style,
            distinct_directories(
                seq![steamapps_in(style, steam_root@)] + named_directories(style, reads@),
            ),
        ),
        match found.1 {
            Some(detail) => if read_errors(reads@).len() > 0 {
                detail@ == joined_with(read_errors(reads@), "; "@)
            } else {
                !any_found(reads@) && detail@
                    == "libraryfolders.vdf was not found in config or steamapps"@
            },
            None => read_errors(reads@).len() == 0 && any_found(reads@),
        },
{
    let own = steamapps_path(style, steam_root);
    let ghost start = seq![steamapps_in(style, steam_root@)];
    let mut roots: Vec<String> = Vec::new();
    roots.push(own);
    let mut errors: Vec<String> = Vec::new();
    let mut any = false;
    let mut at: usize = 0;
    proof {
        assert(text_views(roots@) =~= start + named_directories(style, reads@.take(0)));
        assert(text_views(errors@) =~= read_errors(reads@.take(0)));
    }
    while at < reads.len()
        invariant
            at <= reads.len(),
            text_views(roots@) == start + named_directories(style, reads@.take(at as int)),
            text_views(errors@) == read_errors(reads@.take(at as int)),
            any <==> exists|i: int| 0 <= i < at && (#[trigger] reads@[i]).read is Some,
        decreases reads.len() - at,
    {
        proof {
            assert(reads@.take(at + 1).drop_last() =~= reads@.take(at as int));
        }
        let ghost roots_before = text_views(roots@);
        let ghost errors_before = text_views(errors@);
        match &reads[at].read {
            None => {},
            Some(Ok(contents)) => {
                any = true;
                let libraries = distinct_libraries(style, contents);
                let ghost named = first_spellings(style, library_texts(tokens_of(contents@)));
                let ghost all = steamapps_of(style, named);
                let mut next: usize = 0;
                proof {
                    assert(roots_before + all.take(0) =~= roots_before);
                }
                while next < libraries.len()
                    invariant
                        next <= libraries.len(),
                        text_views(libraries@) == named,
                        all == steamapps_of(style, named),
                        text_views(roots@) == roots_before + all.take(next as int),
                    decreases libraries.len() - next,
                {
                    let ghost so_far = text_views(roots@);
                    proof {
                        assert(named[next as int] == libraries@[next as int]@);
                    }
                    roots.push(steamapps_path(style, &libraries[next]));
                    next += 1;
                    proof {
                        assert(text_views(roots@) =~= so_far.push(all[next - 1]));
                        assert(all.take(next as int) =~= all.take(next - 1).push(all[next - 1]));
                        assert(text_views(roots@) =~= roots_before + all.take(next as int));
                    }
                }
                proof {
                    assert(named.len() == libraries.len());
                    assert(all.take(next as int) =~= all);
                    assert(start + (named_directories(style, reads@.take(at as int)) + all)
                        =~= roots_before + all);
                }
            },
            Some(Err(error)) => {
                any = true;
                errors.push(join_three(&reads[at].shown, ": ", error));
                proof {
                    assert(text_views(errors@) =~= errors_before.push(
                        reads@[at as int].shown@ + ": "@ + error@,
                    ));
                }
            },
        }
        at += 1;
    }
    proof {
        assert(reads@.take(at as int) =~= reads@);
        assert(any <==> any_found(reads@));
        assert(text_views(errors@).len() == errors.len());
    }
    let detail = if errors.len() > 0 {
        Some(join_texts(&errors, "; "))
    } else if !any {
        Some("libraryfolders.vdf was not found in config or steamapps".to_owned())
    } else {
        None
    };
    (parse_all(style, &deduplicate_steam_roots(roots)), detail)
}

/// What a directory of manifests gave, and what could not be read.
#[derive(Debug, PartialEq, Eq)]
pub struct ManifestScan<T> {
    pub items: Vec<T>,
    pub errors: Vec<String>,
}

/// A Steam application.
#[derive(Debug, PartialEq, Eq)]
pub struct SteamApp {
    pub app_id: String,
    pub title: String,
    pub root: FilePath,
}

/// The token behind the first one that is `key`, whatever the case of its
/// letters.
pub open spec fn value_of(tokens: Seq<Seq<char>>, key: Seq<char>) -> Option<Seq<char>>
    decreases tokens.len(),
{
    if tokens.len() < 2 {
        None
    } else {
        match value_of(tokens.drop_last(), key) {
            Some(value) => Some(value),
            None => if ascii_folded(tokens[tokens.len() - 2]) == ascii_folded(key) {
                Some(tokens.last())
            } else {
                None
            },
        }
    }
}

fn token_value<'a>(tokens: &'a Vec<String>, key: &str) -> (value: Option<&'a String>)
    ensures
        match value {
            Some(value) => value_of(text_views(tokens@), key@) == Some(value@),
            None => value_of(text_views(tokens@), key@) is None,
        },
{
    let ghost seen = text_views(tokens@);
    let mut at: usize = 1;
    while at < tokens.len()
        invariant
            1 <= at,
            at <= tokens.len() || at == 1,
            seen == text_views(tokens@),
            value_of(
                seen.take(if at <= seen.len() { at as int } else { seen.len() as int }),
                key@,
            ) is None,
        decreases tokens.len() - at,
    {
        proof {
            let more = seen.take(at + 1);
            assert(more.drop_last() =~= seen.take(at as int));
            assert(more[more.len() - 2] == tokens@[at - 1]@);
            assert(more.last() == tokens@[at as int]@);
        }
        if same_folded(&tokens[at - 1], key) {
            proof {
                value_of_stays(seen, key@, at + 1);
            }
            return Some(&tokens[at]);
        }
        at += 1;
    }
    proof {
        assert(seen.take(seen.len() as int) =~= seen);
    }
    None
}

proof fn value_of_stays(tokens: Seq<Seq<char>>, key: Seq<char>, at: int)
    requires
        0 <= at <= tokens.len(),
        value_of(tokens.take(at), key) is Some,
    ensures
        value_of(tokens, key) == value_of(tokens.take(at), key),
    decreases tokens.len(),
{
    if at == tokens.len() {
        assert(tokens.take(at) =~= tokens);
    } else {
        assert(tokens.drop_last().take(at) =~= tokens.take(at));
        value_of_stays(tokens.drop_last(), key, at);
    }
}

/// Whether the tokens of a manifest say which application it is about.
pub open spec fn identifies(tokens: Seq<Seq<char>>) -> bool {
    &&& value_of(tokens, "appid"@) is Some
    &&& value_of(tokens, "name"@) is Some
    &&& value_of(tokens, "installdir"@) is Some
}

/// The mathematical content of a [`SteamApp`].
#[verifier::ext_equal]
pub struct AppModel {
    pub app_id: Seq<char>,
    pub title: Seq<char>,
    pub root: Seq<char>,
}

impl View for SteamApp {
    type V = AppModel;

    open spec fn view(&self) -> AppModel {
        AppModel { app_id: self.app_id@, title: self.title@, root: self.root@ }
    }
}

/// The contents of each of `apps`.
pub open spec fn app_views(apps: Seq<SteamApp>) -> Seq<AppModel> {
    apps.map_values(|app: SteamApp| app@)
}

/// The application that a manifest in the directory `steamapps` describes.
pub open spec fn described_app(
    style: PathStyle,
    tokens: Seq<Seq<char>>,
    steamapps: Seq<char>,
) -> AppModel {
    AppModel {
        app_id: value_of(tokens, "appid"@)->0,
        title: value_of(tokens, "name"@)->0,
        root: led_to(style, joined(steamapps, "common"@), value_of(tokens, "installdir"@)->0),
    }
}

/// The application that a manifest in the directory `steamapps` describes.
pub fn steam_manifest(
    style: PathStyle,
    steamapps: &FilePath,
    contents: &str,
) -> (app: Option<SteamApp>)
    ensures
        app is Some <==> identifies(tokens_of(contents@)),
        app matches Some(app) ==> app@ == described_app(style, tokens_of(contents@), steamapps@),
{
    let tokens = quoted_tokens(contents);
    match (
        token_value(&tokens, "appid"),
        token_value(&tokens, "name"),
        token_value(&tokens, "installdir"),
    ) {
        (Some(app_id), Some(title), Some(directory)) => Some(
            SteamApp {
                app_id: app_id.clone(),
                title: title.clone(),
                root: steamapps.join("common").lead(style, directory),
            },
        ),
        _ => None,
    }
}

/// A file in a directory of manifests.
#[derive(Debug, PartialEq, Eq)]
pub enum ManifestFile {
    /// The directory could not be listed further.
    Unlisted { error: String },
    /// A file with its name, its path as it is shown to the user, and what was
    /// read from it. Files whose name does not matter need not be read.
    Listed { name: String, shown: String, read: Result<String, String> },
}

/// Whether a file is the manifest of an application.
pub open spec fn is_manifest_name(name: Seq<char>) -> bool {
    begins(name, "appmanifest_"@) && ends(name, ".acf"@)
}

/// Whether a file is the manifest of an application.
pub fn names_manifest(name: &str) -> (manifest: bool)
    ensures
        manifest == is_manifest_name(name@),
{
    starts_with(name, "appmanifest_") && ends_with(name, ".acf")
}

/// The application that holds the runtimes shared by all games. It is no game.
pub const STEAMWORKS_SHARED: &'static str = "228980";

/// The application that a file describes, if it is the manifest of a game.
pub open spec fn file_app(
    style: PathStyle,
    steamapps: Seq<char>,
    file: ManifestFile,
) -> Option<AppModel> {
    match file {
        ManifestFile::Listed { name, shown: _, read: Ok(contents) } => {
            let tokens = tokens_of(contents@);
            if is_manifest_name(name@) && identifies(tokens) && value_of(tokens, "appid"@) != Some(
                STEAMWORKS_SHARED@,
            ) {
                Some(described_app(style, tokens, steamapps))
            } else {
                None
            }
        },
        _ => None,
    }
}

/// What there is to say about a file that could not be read or understood.
pub open spec fn file_error(directory: Seq<char>, file: ManifestFile) -> Option<Seq<char>> {
    match file {
        ManifestFile::Unlisted { error } => Some(directory + ": "@ + error@),
        ManifestFile::Listed { name, shown, read } => if !is_manifest_name(name@) {
            None
        } else {
            match read {
                Err(error) => Some(shown@ + ": "@ + error@),
                Ok(contents) => if identifies(tokens_of(contents@)) {
                    None
                } else {
                    Some(shown@ + ": required fields are missing"@)
                },
            }
        },
    }
}

/// The applications that files describe, in order.
pub open spec fn file_apps(
    style: PathStyle,
    steamapps: Seq<char>,
    files: Seq<ManifestFile>,
) -> Seq<AppModel>
    decreases files.len(),
{
    if files.len() == 0 {
        Seq::empty()
    } else {
        let before = file_apps(style, steamapps, files.drop_last());
        match file_app(style, steamapps, files.last()) {
            Some(app) => before.push(app),
            None => before,
        }
    }
}

/// What there is to say about files that could not be read or understood.
pub open spec fn file_errors(directory: Seq<char>, files: Seq<ManifestFile>) -> Seq<Seq<char>>
    decreases files.len(),
{
    if files.len() == 0 {
        Seq::empty()
    } else {
        let before = file_errors(directory, files.drop_last());
        match file_error(directory, files.last()) {
            Some(error) => before.push(error),
            None => before,
        }
    }
}

fn read_manifest(
    style: PathStyle,
    steamapps: &FilePath,
    directory: &str,
    file: &ManifestFile,
) -> (found: (
    Option<SteamApp>,
    Option<String>,
))
    ensures
        match found.0 {
            Some(app) => file_app(style, steamapps@, *file) == Some(app@),
            None => file_app(style, steamapps@, *file) is None,
        },
        match found.1 {
            Some(error) => file_error(directory@, *file) == Some(error@),
            None => file_error(directory@, *file) is None,
        },
{
    match file {
        ManifestFile::Unlisted { error } => (None, Some(join_three(directory, ": ", error))),
        ManifestFile::Listed { name, shown, read } => {
            if !names_manifest(name) {
                return (None, None);
            }
            match read {
                Err(error) => (None, Some(join_three(shown, ": ", error))),
                Ok(contents) => match steam_manifest(style, steamapps, contents) {
                    None => (None, Some(join_two(shown, ": required fields are missing"))),
                    Some(app) => if same_text(&app.app_id, STEAMWORKS_SHARED) {
                        (None, None)
                    } else {
                        (Some(app), None)
                    },
                },
            }
        },
    }
}

/// Scans the files of the directory `steamapps`, which is shown to the user as
/// `directory`. A manifest that cannot be read or understood is reported and
/// does not hide the others.
pub fn steam_manifests_with_errors(
    style: PathStyle,
    steamapps: &FilePath,
    directory: &str,
    files: &Vec<ManifestFile>,
) -> (scan: ManifestScan<SteamApp>)
    ensures
        app_views(scan.items@) == file_apps(style, steamapps@, files@),
        text_views(scan.errors@) == file_errors(directory@, files@),
{
    let mut items: Vec<SteamApp> = Vec::new();
    let mut errors: Vec<String> = Vec::new();
    let mut at: usize = 0;
    proof {
        assert(app_views(items@) =~= Seq::<AppModel>::empty());
        assert(text_views(errors@) =~= Seq::<Seq<char>>::empty());
    }
    while at < files.len()
        invariant
            at <= files.len(),
            app_views(items@) == file_apps(style, steamapps@, files@.take(at as int)),
            text_views(errors@) == file_errors(directory@, files@.take(at as int)),
        decreases files.len() - at,
    {
        let ghost items_before = app_views(items@);
        let ghost errors_before = text_views(errors@);
        proof {
            assert(files@.take(at + 1).drop_last() =~= files@.take(at as int));
        }
        let (app, error) = read_manifest(style, steamapps, directory, &files[at]);
        if let Some(app) = app {
            items.push(app);
            proof {
                assert(app_views(items@) =~= items_before.push(app@));
            }
        }
        if let Some(error) = error {
            errors.push(error);
            proof {
                assert(text_views(errors@) =~= errors_before.push(error@));
            }
        }
        at += 1;
    }
    proof {
        assert(files@.take(at as int) =~= files@);
    }
    ManifestScan { items, errors }
}

/// The applications that the files of the directory `steamapps` describe.
pub fn steam_manifests(
    style: PathStyle,
    steamapps: &FilePath,
    files: &Vec<ManifestFile>,
) -> (items: Vec<SteamApp>)
    ensures
        app_views(items@) == file_apps(style, steamapps@, files@),
{
    steam_manifests_with_errors(style, steamapps, "", files).items
}

/// A manifest of the Epic launcher.
#[derive(Debug, PartialEq, Eq)]
pub struct EpicManifest {
    pub display_name: String,
    pub install_location: String,
    pub catalog_item_id: String,
    pub app_name: String,
}

/// The part of a manifest that names its game for good.
pub open spec fn epic_identity(manifest: EpicManifest) -> Seq<char> {
    if manifest.catalog_item_id@.len() == 0 {
        manifest.app_name@
    } else {
        manifest.catalog_item_id@
    }
}

/// The game that a manifest describes.
pub fn epic_game(style: PathStyle, manifest: EpicManifest) -> (game: Result<GameInstall, String>)
    ensures
        if manifest.install_location@.len() == 0 {
            game matches Err(reason) && reason@ == "install location is missing"@
        } else if epic_identity(manifest).len() == 0 {
            game matches Err(reason) && reason@ == "catalog and app identifiers are missing"@
        } else {
            &&& game matches Ok(game)
            &&& game.id@ == "epic:"@ + epic_identity(manifest)
            &&& game.name == manifest.display_name
            &&& game.store == StoreKind::Epic
            &&& game.root@ == normal_form(style, manifest.install_location@)
            &&& game.dlls.len() == 0
            &&& game.inspection_errors == 0
        },
{
    if manifest.install_location.as_str().is_empty() {
        return Err("install location is missing".to_owned());
    }
    let stable = if manifest.catalog_item_id.as_str().is_empty() {
        manifest.app_name
    } else {
        manifest.catalog_item_id
    };
    if stable.as_str().is_empty() {
        return Err("catalog and app identifiers are missing".to_owned());
    }
    Ok(
        GameInstall {
            id: GameId(join_two("epic:", &stable)),
            name: manifest.display_name,
            store: StoreKind::Epic,
            root: FilePath::parse(style, &manifest.install_location),
            dlls: Vec::new(),
            inspection_errors: 0,
        },
    )
}

/// The game that a Steam application is.
pub fn steam_game(app: SteamApp) -> (game: GameInstall)
    ensures
        game.id@ == "steam:"@ + app.app_id@,
        game.name == app.title,
        game.store == StoreKind::Steam,
        game.root == app.root,
        game.dlls.len() == 0,
        game.inspection_errors == 0,
{
    GameInstall {
        id: GameId(join_two("steam:", &app.app_id)),
        name: app.title,
        store: StoreKind::Steam,
        root: app.root,
        dlls: Vec::new(),
        inspection_errors: 0,
    }
}

/// The game in a folder that the user added. `key` tells the folder apart from
/// every other one.
pub fn manual_install(root: FilePath, key: &str) -> (game: GameInstall)
    ensures
        game.id@ == "manual:"@ + key@,
        game.name@ == if has_name(root@) {
            readable(last_part(root@))
        } else {
            "Manual game"@
        },
        game.store == StoreKind::Manual,
        game.root == root,
        game.dlls.len() == 0,
        game.inspection_errors == 0,
{
    let name = match root.file_name() {
        Some(name) => readable_text(&name),
        None => "Manual game".to_owned(),
    };
    GameInstall {
        id: GameId(join_two("manual:", key)),
        name,
        store: StoreKind::Manual,
        root,
        dlls: Vec::new(),
        inspection_errors: 0,
    }
}

/// The key of a path given as bytes.
pub fn byte_path_key(path: &[u8]) -> (key: String)
    ensures
        key@ == hex(path@),
{
    hex_text(path)
}

/// Four hexadecimal digits for each unit.
pub open spec fn unit_hex(units: Seq<u16>) -> Seq<char>
    decreases units.len(),
{
    if units.len() == 0 {
        Seq::empty()
    } else {
        unit_hex(units.drop_last()) + padded_hex(units.last() as nat, 4)
    }
}

/// The key of a path given as UTF-16 units.
pub fn unit_path_key(path: &[u16]) -> (key: String)
    ensures
        key@ == unit_hex(path@),
{
    let mut key = String::new();
    let mut at: usize = 0;
    while at < path.len()
        invariant
            at <= path.len(),
            key@ == unit_hex(path@.take(at as int)),
        decreases path.len() - at,
    {
        proof {
            assert(path@.take(at + 1).drop_last() =~= path@.take(at as int));
        }
        push_hex(&mut key, path[at] as u128, 4);
        at += 1;
    }
    proof {
        assert(path@.take(at as int) =~= path@);
    }
    key
}

/// Different paths have different keys, whether or not they are Unicode text.
pub proof fn path_keys_are_distinct(left: Seq<u16>, right: Seq<u16>)
    requires
        unit_hex(left) == unit_hex(right),
    ensures
        left == right,
    decreases left.len(),
{
    unit_hex_length(left);
    unit_hex_length(right);
    if left.len() > 0 {
        let ours = unit_hex(left.drop_last());
        let theirs = unit_hex(right.drop_last());
        unit_hex_length(left.drop_last());
        unit_hex_length(right.drop_last());
        crate::digest::padded_hex_digits(left.last() as nat, 4);
        crate::digest::padded_hex_digits(right.last() as nat, 4);
        assert(unit_hex(left).take(ours.len() as int) =~= ours);
        assert(unit_hex(right).take(theirs.len() as int) =~= theirs);
        assert(unit_hex(left).skip(ours.len() as int) =~= padded_hex(left.last() as nat, 4));
        assert(unit_hex(right).skip(theirs.len() as int) =~= padded_hex(right.last() as nat, 4));
        path_keys_are_distinct(left.drop_last(), right.drop_last());
        padded_hex_is_injective(left.last() as nat, right.last() as nat, 4);
        assert(left =~= left.drop_last().push(left.last()));
        assert(right =~= right.drop_last().push(right.last()));
    } else {
        assert(left =~= right);
    }
}

proof fn unit_hex_length(units: Seq<u16>)
    ensures
        unit_hex(units).len() == 4 * units.len(),
    decreases units.len(),
{
    if units.len() > 0 {
        unit_hex_length(units.drop_last());
        crate::digest::padded_hex_digits(units.last() as nat, 4);
    }
}

proof fn padded_hex_is_injective(left: nat, right: nat, digits: nat)
    requires
        padded_hex(left, digits) == padded_hex(right, digits),
        left < 65536,
        right < 65536,
        digits == 4,
    ensures
        left == right,
{
    reveal_with_fuel(padded_hex, 5);
    let ours = padded_hex(left, 4);
    let theirs = padded_hex(right, 4);
    assert(ours[3] == hex_digit(left as int % 16));
    assert(ours[2] == hex_digit((left / 16) as int % 16));
    assert(ours[1] == hex_digit((left / 16 / 16) as int % 16));
    assert(ours[0] == hex_digit((left / 16 / 16 / 16) as int % 16));
    assert(theirs[3] == hex_digit(right as int % 16));
    assert(theirs[2] == hex_digit((right / 16) as int % 16));
    assert(theirs[1] == hex_digit((right / 16 / 16) as int % 16));
    assert(theirs[0] == hex_digit((right / 16 / 16 / 16) as int % 16));
    hex_digit_is_injective(left as int % 16, right as int % 16);
    hex_digit_is_injective((left / 16) as int % 16, (right / 16) as int % 16);
    hex_digit_is_injective((left / 16 / 16) as int % 16, (right / 16 / 16) as int % 16);
    hex_digit_is_injective((left / 16 / 16 / 16) as int % 16, (right / 16 / 16 / 16) as int % 16);
}

proof fn hex_digit_is_injective(left: int, right: int)
    requires
        0 <= left < 16,
        0 <= right < 16,
        hex_digit(left) == hex_digit(right),
    ensures
        left == right,
{
}

/// Different paths given as bytes have different keys.
pub proof fn byte_path_keys_are_distinct(left: Seq<u8>, right: Seq<u8>)
    requires
        hex(left) == hex(right),
    ensures
        left == right,
{
    hex_is_injective(left, right);
}

/// The identifier of the DLL whose path inside the game's folder has the key
/// `key`.
pub fn installation_id(game: &GameId, key: &str) -> (id: DllInstallationId)
    ensures
        id@ == game@ + ":"@ + key@,
{
    DllInstallationId(join_three(&game.0, ":", key))
}

/// The installation of a DLL that was found at `path` and inspected.
pub fn located_dll(
    id: DllInstallationId,
    game: &GameId,
    path: FilePath,
    file_name: FileName,
    metadata: DllMetadata,
) -> (dll: DllInstallation)
    ensures
        dll == (DllInstallation { id, game_id: *game, path, file_name, metadata }),
{
    DllInstallation { id, game_id: game.clone(), path, file_name, metadata }
}

/// What the search of one store gave.
#[derive(Debug, PartialEq, Eq)]
pub struct StoreScan {
    pub games: Vec<GameInstall>,
    /// What to say if there are no games.
    pub empty_status: DiscoveryStatus,
    pub detail: Option<String>,
}

impl StoreScan {
    /// What the user is told about the search.
    pub fn report(&self, store: &str) -> (report: StoreDiscoveryReport)
        ensures
            report.store@ == store@,
            report.status == if self.games.len() == 0 {
                self.empty_status
            } else {
                DiscoveryStatus::Found
            },
            report.games_found == self.games.len(),
            report.detail == self.detail,
    {
        let status = if self.games.len() == 0 {
            self.empty_status
        } else {
            DiscoveryStatus::Found
        };
        let detail = match &self.detail {
            Some(text) => Some(text.clone()),
            None => None,
        };
        StoreDiscoveryReport {
            store: store.to_owned(),
            status,
            games_found: self.games.len(),
            detail,
        }
    }
}

/// `HRESULT_FROM_WIN32(ERROR_FILE_NOT_FOUND)` (0x80070002).
pub const FILE_NOT_FOUND: i32 = -2147024894;

/// `HRESULT_FROM_WIN32(ERROR_PATH_NOT_FOUND)` (0x80070003).
pub const PATH_NOT_FOUND: i32 = -2147024893;

/// Why a registry value could not be read.
#[derive(Debug, PartialEq, Eq)]
pub struct RegistryError {
    pub code: i32,
    pub text: String,
}

/// Whether a code only says that a key or value is not there.
pub open spec fn says_missing(code: i32) -> bool {
    code == FILE_NOT_FOUND || code == PATH_NOT_FOUND
}

/// Decides [`says_missing`].
pub fn is_missing_registry_error(code: i32) -> (missing: bool)
    ensures
        missing == says_missing(code),
{
    code == FILE_NOT_FOUND || code == PATH_NOT_FOUND
}

/// The errors of the two places where Steam leaves its path, without those that
/// only say that it is not there.
pub open spec fn steam_registry_errors(user: RegistryError, machine: RegistryError) -> Seq<
    Seq<char>,
> {
    let first = if says_missing(user.code) {
        Seq::<Seq<char>>::empty()
    } else {
        seq!["HKCU: "@ + user.text@]
    };
    if says_missing(machine.code) {
        first
    } else {
        first.push("HKLM: "@ + machine.text@)
    }
}

/// Where Steam is installed, or what to report if neither place of the registry
/// says.
pub fn steam_path(
    user: Result<String, RegistryError>,
    machine: Result<String, RegistryError>,
) -> (path: Result<String, StoreScan>)
    ensures
        match (user, machine) {
            (Ok(path_of_user), _) => path == Ok::<String, StoreScan>(path_of_user),
            (Err(_), Ok(path_of_machine)) => path == Ok::<String, StoreScan>(path_of_machine),
            (Err(user_error), Err(machine_error)) => {
                let errors = steam_registry_errors(user_error, machine_error);
                &&& path matches Err(scan)
                &&& scan.games.len() == 0
                &&& scan.empty_status == if errors.len() > 0 {
                    DiscoveryStatus::Error
                } else {
                    DiscoveryStatus::NotDetected
                }
                &&& scan.detail matches Some(detail)
                &&& detail@ == if errors.len() > 0 {
                    joined_with(errors, "; "@)
                } else {
                    "registry key missing (HKCU and HKLM)"@
                }
            },
        },
{
    match (user, machine) {
        (Ok(path), _) => Ok(path),
        (Err(_), Ok(path)) => Ok(path),
        (Err(user_error), Err(machine_error)) => {
            let mut errors: Vec<String> = Vec::new();
            proof {
                assert(text_views(errors@) =~= Seq::<Seq<char>>::empty());
            }
            if !is_missing_registry_error(user_error.code) {
                errors.push(join_two("HKCU: ", &user_error.text));
                proof {
                    assert(text_views(errors@) =~= seq!["HKCU: "@ + user_error.text@]);
                }
            }
            let ghost first = text_views(errors@);
            if !is_missing_registry_error(machine_error.code) {
                errors.push(join_two("HKLM: ", &machine_error.text));
                proof {
                    assert(text_views(errors@) =~= first.push("HKLM: "@ + machine_error.text@));
                }
            }
            proof {
                assert(text_views(errors@) == steam_registry_errors(user_error, machine_error));
                assert(text_views(errors@).len() == errors.len());
            }
            if errors.len() > 0 {
                Err(
                    StoreScan {
                        games: Vec::new(),
                        empty_status: DiscoveryStatus::Error,
                        detail: Some(join_texts(&errors, "; ")),
                    },
                )
            } else {
                Err(
                    StoreScan {
                        games: Vec::new(),
                        empty_status: DiscoveryStatus::NotDetected,
                        detail: Some("registry key missing (HKCU and HKLM)".to_owned()),
                    },
                )
            }
        },
    }
}

/// What a search comes to that found `games` and met `errors`.
pub fn conclude_scan(games: Vec<GameInstall>, errors: &Vec<String>) -> (scan: StoreScan)
    ensures
        scan.games == games,
        scan.empty_status == if errors.len() > 0 {
            DiscoveryStatus::Error
        } else {
            DiscoveryStatus::NotDetected
        },
        match scan.detail {
            Some(detail) => errors.len() > 0 && detail@ == joined_with(text_views(errors@), "; "@),
            None => errors.len() == 0,
        },
{
    if errors.len() > 0 {
        StoreScan {
            games,
            empty_status: DiscoveryStatus::Error,
            detail: Some(join_texts(errors, "; ")),
        }
    } else {
        StoreScan { games, empty_status: DiscoveryStatus::NotDetected, detail: None }
    }
}

/// All applications of all libraries, in order.
pub open spec fn all_apps(libraries: Seq<ManifestScan<SteamApp>>) -> Seq<SteamApp>
    decreases libraries.len(),
{
    if libraries.len() == 0 {
        Seq::empty()
    } else {
        all_apps(libraries.drop_last()) + libraries.last().items@
    }
}

/// All errors of all libraries, in order.
pub open spec fn all_errors(libraries: Seq<ManifestScan<SteamApp>>) -> Seq<Seq<char>>
    decreases libraries.len(),
{
    if libraries.len() == 0 {
        Seq::empty()
    } else {
        all_errors(libraries.drop_last()) + text_views(libraries.last().errors@)
    }
}

/// Whether `game` is the game that `app` is.
pub open spec fn is_game_of(app: SteamApp, game: GameInstall) -> bool {
    &&& game.id@ == "steam:"@ + app.app_id@
    &&& game.name == app.title
    &&& game.store == StoreKind::Steam
    &&& game.root == app.root
    &&& game.dlls.len() == 0
    &&& game.inspection_errors == 0
}

/// What the libraries of Steam hold. `detail` is what there is to say about the
/// files that name the libraries; it comes after the errors of the libraries.
pub fn discover_steam(libraries: Vec<ManifestScan<SteamApp>>, detail: Option<String>) -> (scan:
    StoreScan)
    ensures
        ({
            let errors = match detail {
                Some(text) => all_errors(libraries@).push(text@),
                None => all_errors(libraries@),
            };
            &&& scan.games.len() == all_apps(libraries@).len()
            &&& forall|i: int|
                0 <= i < scan.games.len() ==> is_game_of(
                    all_apps(libraries@)[i],
                    #[trigger] scan.games@[i],
                )
            &&& scan.empty_status == if errors.len() > 0 {
                DiscoveryStatus::Error
            } else {
                DiscoveryStatus::NotDetected
            }
            &&& match scan.detail {
                Some(told) => errors.len() > 0 && told@ == joined_with(errors, "; "@),
                None => errors.len() == 0,
            }
        }),
{
    let mut games: Vec<GameInstall> = Vec::new();
    let mut errors: Vec<String> = Vec::new();
    let mut at: usize = 0;
    proof {
        assert(text_views(errors@) =~= Seq::<Seq<char>>::empty());
    }
    while at < libraries.len()
        invariant
            at <= libraries.len(),
            games.len() == all_apps(libraries@.take(at as int)).len(),
            forall|i: int|
                0 <= i < games.len() ==> is_game_of(
                    all_apps(libraries@.take(at as int))[i],
                    #[trigger] games@[i],
                ),
            text_views(errors@) == all_errors(libraries@.take(at as int)),
        decreases libraries.len() - at,
    {
        let library = &libraries[at];
        let ghost apps = all_apps(libraries@.take(at as int));
        let ghost told = text_views(errors@);
        proof {
            assert(libraries@.take(at + 1).drop_last() =~= libraries@.take(at as int));
        }
        let mut next: usize = 0;
        while next < library.items.len()
            invariant
                next <= library.items.len(),
                games.len() == apps.len() + next,
                forall|i: int|
                    0 <= i < games.len() ==> is_game_of(
                        (apps + library.items@)[i],
                        #[trigger] games@[i],
                    ),
            decreases library.items.len() - next,
        {
            let app = &library.items[next];
            games.push(
                steam_game(
                    SteamApp {
                        app_id: app.app_id.clone(),
                        title: app.title.clone(),
                        root: app.root.clone(),
                    },
                ),
            );
            next += 1;
        }
        let mut which: usize = 0;
        proof {
            assert(told + text_views(library.errors@).take(0) =~= told);
        }
        while which < library.errors.len()
            invariant
                which <= library.errors.len(),
                text_views(errors@) == told + text_views(library.errors@).take(which as int),
            decreases library.errors.len() - which,
        {
            let ghost so_far = text_views(errors@);
            errors.push(library.errors[which].clone());
            which += 1;
            proof {
                let all = text_views(library.errors@);
                assert(text_views(errors@) =~= so_far.push(all[which - 1]));
                assert(all.take(which as int) =~= all.take(which - 1).push(all[which - 1]));
                assert(text_views(errors@) =~= told + all.take(which as int));
            }
        }
        proof {
            let all = text_views(library.errors@);
            assert(all.take(which as int) =~= all);
        }
        at += 1;
    }
    proof {
        assert(libraries@.take(at as int) =~= libraries@);
    }
    if let Some(text) = detail {
        let ghost told = text_views(errors@);
        errors.push(text);
        proof {
            assert(text_views(errors@) =~= told.push(text@));
        }
    }
    proof {
        assert(text_views(errors@).len() == errors.len());
    }
    conclude_scan(games, &errors)
}

/// What the Epic launcher left. `directory` is its manifest directory as it is
/// shown to the user, or why it is not known; `scan` is what was read there, if
/// it exists.
pub fn discover_epic(
    directory: Result<String, String>,
    scan: Option<ManifestScan<GameInstall>>,
) -> (found: StoreScan)
    ensures
        match (directory, scan) {
            (Err(reason), _) => found.games.len() == 0 && found.empty_status
                == DiscoveryStatus::Error && found.detail == Some(reason),
            (Ok(shown), None) => found.games.len() == 0 && found.empty_status
                == DiscoveryStatus::NotDetected && (found.detail matches Some(detail) && detail@
                == "manifest directory not found: "@ + shown@),
            (Ok(_), Some(scan)) => {
                &&& found.games == scan.items
                &&& found.empty_status == if scan.errors.len() > 0 {
                    DiscoveryStatus::Error
                } else {
                    DiscoveryStatus::NotDetected
                }
                &&& match found.detail {
                    Some(detail) => scan.errors.len() > 0 && detail@ == joined_with(
                        text_views(scan.errors@),
                        "; "@,
                    ),
                    None => scan.errors.len() == 0,
                }
            },
        },
{
    match (directory, scan) {
        (Err(reason), _) => StoreScan {
            games: Vec::new(),
            empty_status: DiscoveryStatus::Error,
            detail: Some(reason),
        },
        (Ok(shown), None) => StoreScan {
            games: Vec::new(),
            empty_status: DiscoveryStatus::NotDetected,
            detail: Some(join_two("manifest directory not found: ", &shown)),
        },
        (Ok(_), Some(scan)) => conclude_scan(scan.items, &scan.errors),
    }
}

/// A key below the games of GOG.
#[derive(Debug, PartialEq, Eq)]
pub struct GogKey {
    pub name: String,
    /// Why the key could not be opened, if it could not.
    pub fault: Option<String>,
    pub path: Result<String, String>,
    pub game_id: Option<String>,
    pub game_name: Option<String>,
}

/// What one half of the registry says about the games of GOG.
#[derive(Debug, PartialEq, Eq)]
pub enum GogKeys {
    /// The key of all games could not be opened.
    Closed(RegistryError),
    /// It could be opened, but not listed.
    Unlisted(String),
    Listed(Vec<GogKey>),
}

/// One half of the registry and what it says.
#[derive(Debug, PartialEq, Eq)]
pub struct GogView {
    pub kind: RegistryView,
    pub keys: GogKeys,
}

/// The mathematical content of a game.
#[verifier::ext_equal]
pub struct GameModel {
    pub id: Seq<char>,
    pub name: Seq<char>,
    pub store: StoreKind,
    pub root: Seq<char>,
    pub dlls: Seq<DllInstallation>,
    pub inspection_errors: usize,
}

impl View for GameInstall {
    type V = GameModel;

    open spec fn view(&self) -> GameModel {
        GameModel {
            id: self.id@,
            name: self.name@,
            store: self.store,
            root: self.root@,
            dlls: self.dlls@,
            inspection_errors: self.inspection_errors,
        }
    }
}

/// The contents of each of `games`.
pub open spec fn game_views(games: Seq<GameInstall>) -> Seq<GameModel> {
    games.map_values(|game: GameInstall| game@)
}

/// How a half of the registry is called.
pub open spec fn view_name(kind: RegistryView) -> Seq<char> {
    match kind {
        RegistryView::View32 => "View32"@,
        RegistryView::View64 => "View64"@,
    }
}

/// The game that a key describes.
pub open spec fn gog_game(key: GogKey) -> Option<GameModel> {
    match (key.fault, key.path) {
        (None, Ok(path)) => Some(
            GameModel {
                id: "gog:"@ + match key.game_id {
                    Some(id) => id@,
                    None => key.name@,
                },
                name: match key.game_name {
                    Some(name) => name@,
                    None => key.name@,
                },
                store: StoreKind::Gog,
                root: normal_form(PathStyle::Windows, path@),
                dlls: Seq::empty(),
                inspection_errors: 0,
            },
        ),
        _ => None,
    }
}

/// What there is to say about a key that could not be read.
pub open spec fn gog_error(kind: RegistryView, key: GogKey) -> Option<Seq<char>> {
    match (key.fault, key.path) {
        (Some(fault), _) => Some(view_name(kind) + "/"@ + key.name@ + ": "@ + fault@),
        (None, Err(error)) => Some(view_name(kind) + "/"@ + key.name@ + "/path: "@ + error@),
        _ => None,
    }
}

/// The games of a list of keys, in order.
pub open spec fn gog_games(keys: Seq<GogKey>) -> Seq<GameModel>
    decreases keys.len(),
{
    if keys.len() == 0 {
        Seq::empty()
    } else {
        match gog_game(keys.last()) {
            Some(game) => gog_games(keys.drop_last()).push(game),
            None => gog_games(keys.drop_last()),
        }
    }
}

/// What there is to say about a list of keys.
pub open spec fn gog_errors(kind: RegistryView, keys: Seq<GogKey>) -> Seq<Seq<char>>
    decreases keys.len(),
{
    if keys.len() == 0 {
        Seq::empty()
    } else {
        match gog_error(kind, keys.last()) {
            Some(error) => gog_errors(kind, keys.drop_last()).push(error),
            None => gog_errors(kind, keys.drop_last()),
        }
    }
}

/// The games of all halves of the registry, in order.
pub open spec fn all_gog_games(halves: Seq<GogView>) -> Seq<GameModel>
    decreases halves.len(),
{
    if halves.len() == 0 {
        Seq::empty()
    } else {
        let before = all_gog_games(halves.drop_last());
        match halves.last().keys {
            GogKeys::Listed(keys) => before + gog_games(keys@),
            _ => before,
        }
    }
}

/// What there is to say about all halves of the registry. That the key of all
/// games is not there is no error.
pub open spec fn all_gog_errors(halves: Seq<GogView>) -> Seq<Seq<char>>
    decreases halves.len(),
{
    if halves.len() == 0 {
        Seq::empty()
    } else {
        let before = all_gog_errors(halves.drop_last());
        let kind = halves.last().kind;
        match halves.last().keys {
            GogKeys::Closed(error) => if says_missing(error.code) {
                before
            } else {
                before.push(view_name(kind) + ": "@ + error.text@)
            },
            GogKeys::Unlisted(error) => before.push(view_name(kind) + ": "@ + error@),
            GogKeys::Listed(keys) => before + gog_errors(kind, keys@),
        }
    }
}

/// Whether one half of the registry has the key of all games.
pub open spec fn gog_is_there(halves: Seq<GogView>) -> bool {
    exists|i: int| 0 <= i < halves.len() && !((#[trigger] halves[i]).keys is Closed)
}

fn name_of_view(kind: RegistryView) -> (name: String)
    ensures
        name@ == view_name(kind),
{
    match kind {
        RegistryView::View32 => "View32".to_owned(),
        RegistryView::View64 => "View64".to_owned(),
    }
}

fn read_gog_key(kind: RegistryView, key: &GogKey) -> (found: (Option<GameInstall>, Option<String>))
    ensures
        match found.0 {
            Some(game) => gog_game(*key) == Some(game@),
            None => gog_game(*key) is None,
        },
        match found.1 {
            Some(error) => gog_error(kind, *key) == Some(error@),
            None => gog_error(kind, *key) is None,
        },
{
    let mut place = name_of_view(kind);
    place.append("/");
    place.append(&key.name);
    match (&key.fault, &key.path) {
        (Some(fault), _) => (None, Some(join_three(&place, ": ", fault))),
        (None, Err(error)) => (None, Some(join_three(&place, "/path: ", error))),
        (None, Ok(path)) => {
            let id = match &key.game_id {
                Some(id) => join_two("gog:", id),
                None => join_two("gog:", &key.name),
            };
            let name = match &key.game_name {
                Some(name) => name.clone(),
                None => key.name.clone(),
            };
            let game = GameInstall {
                id: GameId(id),
                name,
                store: StoreKind::Gog,
                root: FilePath::parse(PathStyle::Windows, path),
                dlls: Vec::new(),
                inspection_errors: 0,
            };
            proof {
                assert(game.dlls@ =~= Seq::<DllInstallation>::empty());
            }
            (Some(game), None)
        },
    }
}

/// What GOG left in the registry.
pub fn discover_gog(halves: &Vec<GogView>) -> (scan: StoreScan)
    ensures
        ({
            let errors = all_gog_errors(halves@);
            &&& game_views(scan.games@) == all_gog_games(halves@)
            &&& scan.empty_status == if errors.len() > 0 {
                DiscoveryStatus::Error
            } else {
                DiscoveryStatus::NotDetected
            }
            &&& match scan.detail {
                Some(detail) => if errors.len() > 0 {
                    detail@ == joined_with(errors, "; "@)
                } else {
                    !gog_is_there(halves@) && detail@
                        == "registry key missing in 32-bit and 64-bit views"@
                },
                None => errors.len() == 0 && gog_is_there(halves@),
            }
        }),
{
    let mut games: Vec<GameInstall> = Vec::new();
    let mut errors: Vec<String> = Vec::new();
    let mut there = false;
    let mut at: usize = 0;
    proof {
        assert(game_views(games@) =~= Seq::<GameModel>::empty());
        assert(text_views(errors@) =~= Seq::<Seq<char>>::empty());
    }
    while at < halves.len()
        invariant
            at <= halves.len(),
            game_views(games@) == all_gog_games(halves@.take(at as int)),
            text_views(errors@) == all_gog_errors(halves@.take(at as int)),
            there <==> exists|i: int|
                0 <= i < at && !((#[trigger] halves@[i]).keys is Closed),
        decreases halves.len() - at,
    {
        let kind = halves[at].kind;
        let ghost games_before = game_views(games@);
        let ghost errors_before = text_views(errors@);
        proof {
            assert(halves@.take(at + 1).drop_last() =~= halves@.take(at as int));
        }
        match &halves[at].keys {
            GogKeys::Closed(error) => {
                if !is_missing_registry_error(error.code) {
                    let name = name_of_view(kind);
                    errors.push(join_three(&name, ": ", &error.text));
                    proof {
                        assert(text_views(errors@) =~= errors_before.push(
                            view_name(kind) + ": "@ + error.text@,
                        ));
                    }
                }
            },
            GogKeys::Unlisted(error) => {
                there = true;
                let name = name_of_view(kind);
                errors.push(join_three(&name, ": ", error));
                proof {
                    assert(text_views(errors@) =~= errors_before.push(
                        view_name(kind) + ": "@ + error@,
                    ));
                }
            },
            GogKeys::Listed(keys) => {
                there = true;
                let mut next: usize = 0;
                proof {
                    assert(games_before + gog_games(keys@.take(0)) =~= games_before);
                    assert(errors_before + gog_errors(kind, keys@.take(0)) =~= errors_before);
                }
                while next < keys.len()
                    invariant
                        next <= keys.len(),
                        game_views(games@) == games_before + gog_games(keys@.take(next as int)),
                        text_views(errors@) == errors_before + gog_errors(
                            kind,
                            keys@.take(next as int),
                        ),
                    decreases keys.len() - next,
                {
                    let ghost some_games = game_views(games@);
                    let ghost some_errors = text_views(errors@);
                    proof {
                        assert(keys@.take(next + 1).drop_last() =~= keys@.take(next as int));
                    }
                    let (game, error) = read_gog_key(kind, &keys[next]);
                    if let Some(game) = game {
                        games.push(game);
                        proof {
                            assert(game_views(games@) =~= some_games.push(game@));
                            assert(game_views(games@) =~= games_before + gog_games(
                                keys@.take(next as int),
                            ).push(game@));
                        }
                    }
                    if let Some(error) = error {
                        errors.push(error);
                        proof {
                            assert(text_views(errors@) =~= some_errors.push(error@));
                            assert(text_views(errors@) =~= errors_before + gog_errors(
                                kind,
                                keys@.take(next as int),
                            ).push(error@));
                        }
                    }
                    next += 1;
                }
                proof {
                    assert(keys@.take(next as int) =~= keys@);
                }
            },
        }
        at += 1;
    }
    proof {
        assert(halves@.take(at as int) =~= halves@);
        assert(there <==> gog_is_there(halves@));
        assert(text_views(errors@).len() == errors.len());
    }
    if errors.len() > 0 {
        StoreScan {
            games,
            empty_status: DiscoveryStatus::Error,
            detail: Some(join_texts(&errors, "; ")),
        }
    } else if !there {
        StoreScan {
            games,
            empty_status: DiscoveryStatus::NotDetected,
            detail: Some("registry key missing in 32-bit and 64-bit views".to_owned()),
        }
    } else {
        StoreScan { games, empty_status: DiscoveryStatus::NotDetected, detail: None }
    }
}

/// Whether a file name has the extension of an Epic manifest, whatever the case
/// of its letters: there is a dot, not in the first place, and `item` behind
/// the last one.
pub open spec fn is_item_name(name: Seq<char>) -> bool {
    name.len() > 5 && ends(ascii_folded(name), ".item"@)
}

/// Decides [`is_item_name`].
pub fn names_item(name: &str) -> (item: bool)
    ensures
        item == is_item_name(name@),
{
    let folded = fold_text(name);
    let end = chars_of(".item");
    folded.len() > 5 && end.len() <= folded.len() && crate::text::stands_at(
        &folded,
        &end,
        folded.len() - end.len(),
    )
}

/// A file in the directory of the Epic launcher's manifests.
#[derive(Debug, PartialEq, Eq)]
pub enum EpicFile {
    /// The directory could not be listed further.
    Unlisted { error: String },
    /// A file with its name, its path as it is shown to the user, and what was
    /// read from it. Files whose name does not matter need not be read.
    Listed { name: String, shown: String, read: Result<EpicManifest, String> },
}

/// The game of a manifest that names one.
pub open spec fn epic_model(style: PathStyle, manifest: EpicManifest) -> GameModel {
    GameModel {
        id: "epic:"@ + epic_identity(manifest),
        name: manifest.display_name@,
        store: StoreKind::Epic,
        root: normal_form(style, manifest.install_location@),
        dlls: Seq::empty(),
        inspection_errors: 0,
    }
}

/// Why a manifest names no game, if it does not.
pub open spec fn epic_fault(manifest: EpicManifest) -> Option<Seq<char>> {
    if manifest.install_location@.len() == 0 {
        Some("install location is missing"@)
    } else if epic_identity(manifest).len() == 0 {
        Some("catalog and app identifiers are missing"@)
    } else {
        None
    }
}

/// The game that a file describes, if it is the manifest of one.
pub open spec fn epic_file_game(style: PathStyle, file: EpicFile) -> Option<GameModel> {
    match file {
        EpicFile::Listed { name, shown: _, read: Ok(manifest) } => if is_item_name(name@)
            && epic_fault(manifest) is None {
            Some(epic_model(style, manifest))
        } else {
            None
        },
        _ => None,
    }
}

/// What there is to say about a file that could not be read or understood.
pub open spec fn epic_file_error(directory: Seq<char>, file: EpicFile) -> Option<Seq<char>> {
    match file {
        EpicFile::Unlisted { error } => Some(directory + ": "@ + error@),
        EpicFile::Listed { name, shown, read } => if !is_item_name(name@) {
            None
        } else {
            match read {
                Err(error) => Some(shown@ + ": "@ + error@),
                Ok(manifest) => match epic_fault(manifest) {
                    Some(fault) => Some(shown@ + ": "@ + fault),
                    None => None,
                },
            }
        },
    }
}

/// The games that files describe, in order.
pub open spec fn epic_file_games(style: PathStyle, files: Seq<EpicFile>) -> Seq<GameModel>
    decreases files.len(),
{
    if files.len() == 0 {
        Seq::empty()
    } else {
        match epic_file_game(style, files.last()) {
            Some(game) => epic_file_games(style, files.drop_last()).push(game),
            None => epic_file_games(style, files.drop_last()),
        }
    }
}

/// What there is to say about files, in order.
pub open spec fn epic_file_errors(directory: Seq<char>, files: Seq<EpicFile>) -> Seq<Seq<char>>
    decreases files.len(),
{
    if files.len() == 0 {
        Seq::empty()
    } else {
        match epic_file_error(directory, files.last()) {
            Some(error) => epic_file_errors(directory, files.drop_last()).push(error),
            None => epic_file_errors(directory, files.drop_last()),
        }
    }
}

fn read_epic_manifest(style: PathStyle, directory: &str, file: EpicFile) -> (found: (
    Option<GameInstall>,
    Option<String>,
))
    ensures
        match found.0 {
            Some(game) => epic_file_game(style, file) == Some(game@),
            None => epic_file_game(style, file) is None,
        },
        match found.1 {
            Some(error) => epic_file_error(directory@, file) == Some(error@),
            None => epic_file_error(directory@, file) is None,
        },
{
    match file {
        EpicFile::Unlisted { error } => (None, Some(join_three(directory, ": ", &error))),
        EpicFile::Listed { name, shown, read } => {
            if !names_item(&name) {
                return (None, None);
            }
            match read {
                Err(error) => (None, Some(join_three(&shown, ": ", &error))),
                Ok(manifest) => match epic_game(style, manifest) {
                    Ok(game) => {
                        proof {
                            assert(game@ =~= epic_model(style, manifest));
                        }
                        (Some(game), None)
                    },
                    Err(fault) => (None, Some(join_three(&shown, ": ", &fault))),
                },
            }
        },
    }
}

/// Scans the files of the Epic launcher's directory, which is shown to the user
/// as `directory`. A manifest that cannot be read or understood is reported and
/// does not hide the others.
pub fn epic_manifests_with_errors(
    style: PathStyle,
    directory: &str,
    files: Vec<EpicFile>,
) -> (scan: ManifestScan<
    GameInstall,
>)
    ensures
        game_views(scan.items@) == epic_file_games(style, files@),
        text_views(scan.errors@) == epic_file_errors(directory@, files@),
{
    let ghost given = files@;
    let mut rest = files;
    let mut items: Vec<GameInstall> = Vec::new();
    let mut errors: Vec<String> = Vec::new();
    proof {
        assert(game_views(items@) =~= Seq::<GameModel>::empty());
        assert(text_views(errors@) =~= Seq::<Seq<char>>::empty());
    }
    while rest.len() > 0
        invariant
            rest.len() <= given.len(),
            rest@ == given.skip(given.len() - rest.len()),
            game_views(items@) == epic_file_games(style, given.take(given.len() - rest.len())),
            text_views(errors@) == epic_file_errors(
                directory@,
                given.take(given.len() - rest.len()),
            ),
        decreases rest.len(),
    {
        let ghost done = given.len() - rest.len();
        let ghost items_before = game_views(items@);
        let ghost errors_before = text_views(errors@);
        proof {
            assert(rest@[0] == given[done]);
            assert(given.take(done + 1).drop_last() =~= given.take(done));
        }
        let file = rest.remove(0);
        proof {
            assert(given.skip(done).remove(0) =~= given.skip(done + 1));
        }
        let (game, error) = read_epic_manifest(style, directory, file);
        if let Some(game) = game {
            items.push(game);
            proof {
                assert(game_views(items@) =~= items_before.push(game@));
            }
        }
        if let Some(error) = error {
            errors.push(error);
            proof {
                assert(text_views(errors@) =~= errors_before.push(error@));
            }
        }
    }
    proof {
        assert(given.take(given.len() as int) =~= given);
    }
    ManifestScan { items, errors }
}

/// The games that the files of the Epic launcher's directory describe.
pub fn epic_manifests(style: PathStyle, files: Vec<EpicFile>) -> (items: Vec<GameInstall>)
    ensures
        game_views(items@) == epic_file_games(style, files@),
{
    epic_manifests_with_errors(style, "", files).items
}

/// The position of the first game with the identifier `id`, or the number of
/// games if there is none.
pub open spec fn game_position(games: Seq<GameInstall>, id: Seq<char>) -> int
    decreases games.len(),
{
    if games.len() == 0 {
        0
    } else {
        let before = game_position(games.drop_last(), id);
        if before < games.len() - 1 {
            before
        } else if games.last().id@ == id {
            games.len() - 1
        } else {
            games.len() as int
        }
    }
}

/// The games with `game` in place of the one with the same identifier, or at
/// the end.
pub open spec fn with_game(games: Seq<GameInstall>, game: GameInstall) -> Seq<GameInstall> {
    let at = game_position(games, game.id@);
    if at < games.len() {
        games.update(at, game)
    } else {
        games.push(game)
    }
}

/// The position of the game with the identifier `id`.
pub fn find_game(games: &Vec<GameInstall>, id: &GameId) -> (at: usize)
    ensures
        at == game_position(games@, id@),
        at <= games.len(),
{
    let mut found: usize = 0;
    let mut at: usize = 0;
    while at < games.len()
        invariant
            at <= games.len(),
            found <= at,
            found == game_position(games@.take(at as int), id@),
        decreases games.len() - at,
    {
        proof {
            assert(games@.take(at + 1).drop_last() =~= games@.take(at as int));
        }
        if found == at && !games[at].id.same(id) {
            found = at + 1;
        }
        at += 1;
    }
    proof {
        assert(games@.take(at as int) =~= games@);
    }
    found
}

/// Lists `game` in place of the one with the same identifier, or at the end.
pub fn put_game(games: &mut Vec<GameInstall>, game: GameInstall)
    ensures
        final(games)@ == with_game(old(games)@, game),
{
    let at = find_game(games, &game.id);
    if at < games.len() {
        games.set(at, game);
    } else {
        games.push(game);
    }
}

/// The names of `games` in lower case.
pub open spec fn lower_names(games: Seq<GameInstall>) -> Seq<Seq<char>> {
    games.map_values(|game: GameInstall| lowercase(game.name@))
}

/// Whether `sorted` holds `games` in the order of the names `folded`. Games of
/// the same name keep their order.
pub open spec fn is_sorted_by(
    games: Seq<GameInstall>,
    folded: Seq<Seq<char>>,
    sorted: Seq<GameInstall>,
) -> bool {
    exists|order: Seq<usize>|
        #![trigger is_stable_order(text_keys(folded), false, order)]
        is_stable_order(text_keys(folded), false, order) && is_arranged(games, order, sorted)
}

/// Whether `sorted` holds `games` in the order of the positions `order`.
pub open spec fn is_arranged(
    games: Seq<GameInstall>,
    order: Seq<usize>,
    sorted: Seq<GameInstall>,
) -> bool {
    sorted.len() == order.len() && forall|i: int|
        0 <= i < sorted.len() ==> same_game(#[trigger] sorted[i], games[order[i] as int])
}

/// Sorts games by the names `folded`.
pub fn sort_games_by(games: &Vec<GameInstall>, folded: &Vec<String>) -> (sorted: Vec<GameInstall>)
    requires
        folded.len() == games.len(),
    ensures
        is_sorted_by(games@, text_views(folded@), sorted@),
        sorted.len() == games.len(),
{
    let mut keys: Vec<OrderKey> = Vec::new();
    let mut at: usize = 0;
    while at < folded.len()
        invariant
            at <= folded.len(),
            keys.len() == at,
            forall|i: int|
                0 <= i < at ==> (#[trigger] keys@[i])@ == text_keys(text_views(folded@))[i],
        decreases folded.len() - at,
    {
        let key = OrderKey { number: 0, first: chars_of(&folded[at]), second: Vec::new() };
        proof {
            assert(key.second@ =~= Seq::<char>::empty());
        }
        keys.push(key);
        at += 1;
    }
    proof {
        assert(keys@.map_values(|key: OrderKey| key@) =~= text_keys(text_views(folded@)));
    }
    let order = stable_order(&keys, false);
    let mut sorted: Vec<GameInstall> = Vec::new();
    let mut next: usize = 0;
    while next < order.len()
        invariant
            next <= order.len(),
            folded.len() == games.len(),
            is_stable_order(text_keys(text_views(folded@)), false, order@),
            sorted.len() == next,
            forall|i: int|
                0 <= i < next ==> same_game(#[trigger] sorted@[i], games@[order@[i] as int]),
        decreases order.len() - next,
    {
        proof {
            assert(text_keys(text_views(folded@)).len() == games.len());
            assert(order@[next as int] < text_keys(text_views(folded@)).len());
        }
        sorted.push(games[order[next]].clone());
        next += 1;
    }
    proof {
        assert(is_stable_order(text_keys(text_views(folded@)), false, order@));
        assert(is_arranged(games@, order@, sorted@));
    }
    sorted
}

/// Sorts games by name, whatever the case of the letters.
pub fn sort_games(games: &Vec<GameInstall>) -> (sorted: Vec<GameInstall>)
    ensures
        is_sorted_by(games@, lower_names(games@), sorted@),
        sorted.len() == games.len(),
{
    let mut folded: Vec<String> = Vec::new();
    let mut at: usize = 0;
    while at < games.len()
        invariant
            at <= games.len(),
            folded.len() == at,
            forall|i: int| 0 <= i < at ==> (#[trigger] folded@[i])@ == lowercase(games@[i].name@),
        decreases games.len() - at,
    {
        folded.push(games[at].name.as_str().to_lowercase());
        at += 1;
    }
    proof {
        assert(text_views(folded@) =~= lower_names(games@));
    }
    sort_games_by(games, &folded)
}

/// The games without those that follow one with the same identifier.
pub open spec fn without_repeats(games: Seq<GameInstall>) -> Seq<GameInstall>
    decreases games.len(),
{
    if games.len() == 0 {
        games
    } else {
        let before = without_repeats(games.drop_last());
        if before.len() > 0 && before.last().id@ == games.last().id@ {
            before
        } else {
            before.push(games.last())
        }
    }
}

/// Drops the games that follow one with the same identifier.
pub fn drop_repeats(games: Vec<GameInstall>) -> (kept: Vec<GameInstall>)
    ensures
        kept@ == without_repeats(games@),
{
    let ghost given = games@;
    let mut rest = games;
    let mut kept: Vec<GameInstall> = Vec::new();
    while rest.len() > 0
        invariant
            rest.len() <= given.len(),
            rest@ == given.skip(given.len() - rest.len()),
            kept@ == without_repeats(given.take(given.len() - rest.len())),
        decreases rest.len(),
    {
        let ghost done = given.len() - rest.len();
        proof {
            assert(rest@[0] == given[done]);
            assert(given.take(done + 1).drop_last() =~= given.take(done));
        }
        let game = rest.remove(0);
        proof {
            assert(given.skip(done).remove(0) =~= given.skip(done + 1));
        }
        let repeats = kept.len() > 0 && kept[kept.len() - 1].id.same(&game.id);
        if !repeats {
            kept.push(game);
        }
    }
    proof {
        assert(given.take(given.len() as int) =~= given);
    }
    kept
}

/// Whether a store could not be read.
pub open spec fn any_store_failed(reports: Seq<StoreDiscoveryReport>) -> bool {
    exists|i: int|
        0 <= i < reports.len() && (#[trigger] reports[i]).status == DiscoveryStatus::Error
}

/// Whether a store could not be read. A store that is simply not installed is
/// no such case.
pub fn has_discovery_errors(reports: &[StoreDiscoveryReport]) -> (failed: bool)
    ensures
        failed == any_store_failed(reports@),
{
    let mut at: usize = 0;
    while at < reports.len()
        invariant
            at <= reports.len(),
            forall|i: int|
                0 <= i < at ==> (#[trigger] reports@[i]).status != DiscoveryStatus::Error,
        decreases reports.len() - at,
    {
        if reports[at].status == DiscoveryStatus::Error {
            proof {
                assert(reports@[at as int].status == DiscoveryStatus::Error);
            }
            return true;
        }
        at += 1;
    }
    false
}

} // verus!
