//! File paths as text.
//!
//! A path is written with `/` between its parts, without empty parts and
//! without `.` parts, except for a `.` that a relative path begins with. What
//! stands before the first part depends on the platform: `/` is the root of the
//! file system; on Windows `C:/` is the root of a drive, `C:*/` the place where
//! a drive was left, and `//server/share/` the root of a share. The letter of a
//! drive is written in upper case. [`FilePath::parse`] brings any text into this
//! form, so two paths are equal exactly when their texts are. A unit of a name
//! that is not Unicode text is written as a NUL character and four hexadecimal
//! digits.

use crate::lists::{picks, picks_grow, picks_nothing};
use crate::text::{
    chars_of, join_three, join_two, joined_with, part_of, replace_char, same_text, split,
    split_at_each, text_of, views, with_replaced,
};
use vstd::prelude::*;
use vstd::utf8::{encode_scalar, encode_utf8};

verus! {

/// How a platform writes its paths.
#[derive(Clone, Copy, Debug, PartialEq, Eq, Structural)]
pub enum PathStyle {
    /// `/` separates, and every other character may stand in a name.
    Unix,
    /// `/` and `\` separate, and a path may begin with a drive or a share.
    Windows,
}

/// A path of the file system.
#[derive(Debug, PartialEq, Eq)]
pub struct FilePath {
    pub text: String,
}

impl View for FilePath {
    type V = Seq<char>;

    open spec fn view(&self) -> Seq<char> {
        self.text@
    }
}

impl Clone for FilePath {
    fn clone(&self) -> (copy: FilePath)
        ensures
            copy == *self,
    {
        FilePath { text: self.text.clone() }
    }
}

/// Where the last part of a path begins: behind the last separator.
pub open spec fn last_part_start(path: Seq<char>) -> int
    decreases path.len(),
{
    if path.len() == 0 {
        0
    } else if path.last() == '/' {
        path.len() as int
    } else {
        last_part_start(path.drop_last())
    }
}

/// The last part of a path.
pub open spec fn last_part(path: Seq<char>) -> Seq<char> {
    path.skip(last_part_start(path))
}

/// Whether the last part of a path names a file or a directory. The root, an
/// empty path and a path that ends in `.` or `..` have no name.
pub open spec fn has_name(path: Seq<char>) -> bool {
    let part = last_part(path);
    part.len() > 0 && part != seq!['.'] && part != seq!['.', '.']
}

/// `base` extended by one more part.
pub open spec fn joined(base: Seq<char>, part: Seq<char>) -> Seq<char> {
    if base.len() == 0 || base.last() == '/' {
        base + part
    } else {
        base.push('/') + part
    }
}

/// The path of `name` next to the file at `path`.
pub open spec fn beside(path: Seq<char>, name: Seq<char>) -> Seq<char> {
    path.take(last_part_start(path)) + name
}

/// The name without its extension: what stands before the last dot, unless
/// that is nothing.
pub open spec fn stem(name: Seq<char>) -> Seq<char> {
    stem_up_to(name, name.len() as int)
}

/// [`stem`], where the last dot is known to stand before `end`.
pub open spec fn stem_up_to(name: Seq<char>, end: int) -> Seq<char>
    decreases end,
{
    if end <= 1 {
        name
    } else if name[end - 1] == '.' {
        name.take(end - 1)
    } else {
        stem_up_to(name, end - 1)
    }
}

/// The path with another extension. A path without a name stays as it is.
pub open spec fn with_extension(path: Seq<char>, extension: Seq<char>) -> Seq<char> {
    if has_name(path) {
        beside(path, stem(last_part(path)) + "."@ + extension)
    } else {
        path
    }
}

/// Whether `path` is `base` or lies below it.
pub open spec fn is_within(path: Seq<char>, base: Seq<char>) -> bool {
    ||| path == base
    ||| base.len() == 0
    ||| crate::text::begins(path, joined(base, Seq::empty()))
}

proof fn last_part_start_in_range(path: Seq<char>)
    ensures
        0 <= last_part_start(path) <= path.len(),
    decreases path.len(),
{
    if path.len() > 0 && path.last() != '/' {
        last_part_start_in_range(path.drop_last());
    }
}

/// A name without a separator is the last part of every path that it was
/// joined to.
pub proof fn last_part_of_joined(base: Seq<char>, part: Seq<char>)
    requires
        !part.contains('/'),
    ensures
        base.len() > 0 ==> last_part(joined(base, part)) == part,
        base.len() == 0 ==> last_part(joined(base, part)) == part,
    decreases part.len(),
{
    let whole = joined(base, part);
    if part.len() == 0 {
        assert(whole.len() == 0 || whole.last() == '/');
        assert(last_part(whole) =~= part);
    } else {
        let shorter = part.drop_last();
        assert forall|c: char| shorter.contains(c) implies part.contains(c) by {
            let i = choose|i: int| 0 <= i < shorter.len() && shorter[i] == c;
            assert(part[i] == c);
        }
        last_part_of_joined(base, shorter);
        assert(part.contains(part.last()));
        assert(whole.last() == part.last());
        assert(whole.drop_last() =~= joined(base, shorter));
        last_part_start_in_range(whole.drop_last());
        assert(last_part(whole) =~= last_part(whole.drop_last()).push(part.last()));
        assert(last_part(whole) =~= part);
    }
}

/// A name as it is shown: a NUL and the four characters behind it stand for
/// one unit that is not text, and are shown as the replacement character.
pub open spec fn readable(name: Seq<char>) -> Seq<char>
    decreases name.len(),
{
    if name.len() == 0 {
        name
    } else if name[0] == '\0' {
        seq!['\u{fffd}'] + readable(
            name.skip(
                if name.len() < 5 {
                    name.len() as int
                } else {
                    5
                },
            ),
        )
    } else {
        seq![name[0]] + readable(name.skip(1))
    }
}

/// A name as it is shown.
pub fn readable_text(name: &str) -> (shown: String)
    ensures
        shown@ == readable(name@),
{
    let chars = chars_of(name);
    let mut shown = String::new();
    let mut at: usize = 0;
    proof {
        assert(chars@.skip(0) =~= chars@);
        assert(shown@ + readable(chars@) =~= readable(chars@));
    }
    while at < chars.len()
        invariant
            at <= chars.len(),
            shown@ + readable(chars@.skip(at as int)) == readable(chars@),
        decreases chars.len() - at,
    {
        let ghost rest = chars@.skip(at as int);
        let ghost before = shown@;
        if chars[at] == '\0' {
            let step: usize = if chars.len() - at < 5 {
                chars.len() - at
            } else {
                5
            };
            shown.push('\u{fffd}');
            at += step;
            proof {
                assert(rest.skip(step as int) =~= chars@.skip(at as int));
                assert(shown@ + readable(chars@.skip(at as int)) =~= before + readable(rest));
            }
        } else {
            shown.push(chars[at]);
            at += 1;
            proof {
                assert(rest.skip(1) =~= chars@.skip(at as int));
                assert(shown@ + readable(chars@.skip(at as int)) =~= before + readable(rest));
            }
        }
    }
    proof {
        assert(shown@ + readable(chars@.skip(at as int)) =~= shown@);
    }
    shown
}

/// The value of a hexadecimal digit.
pub open spec fn digit_value(digit: char) -> Option<nat> {
    if '0' <= digit <= '9' {
        Some((digit as int - '0' as int) as nat)
    } else if 'a' <= digit <= 'f' {
        Some((digit as int - 'a' as int + 10) as nat)
    } else {
        None
    }
}

/// The number that four hexadecimal digits stand for; zero if they do not stand
/// for one.
pub open spec fn unit_value(digits: Seq<char>) -> nat {
    if digits.len() == 4 {
        match (
            digit_value(digits[0]),
            digit_value(digits[1]),
            digit_value(digits[2]),
            digit_value(digits[3]),
        ) {
            (Some(one), Some(two), Some(three), Some(four)) => 4096 * one + 256 * two + 16 * three
                + four,
            _ => 0,
        }
    } else {
        0
    }
}

/// The bytes that stand for a unit of a name that is not text: the unit itself
/// where names are made of bytes, and the three bytes of a surrogate where they
/// are made of wider units.
pub open spec fn unit_bytes(unit: nat) -> Seq<u8> {
    if unit < 256 {
        seq![unit as u8]
    } else {
        seq![
            (0xe0 + unit / 4096) as u8,
            (0x80 + unit / 64 % 64) as u8,
            (0x80 + unit % 64) as u8,
        ]
    }
}

/// The bytes of a name, by which the platform orders names: those of its
/// characters, and those of the units that are not text.
pub open spec fn raw_bytes(name: Seq<char>) -> Seq<u8>
    decreases name.len(),
{
    if name.len() == 0 {
        Seq::empty()
    } else if name[0] == '\0' {
        if name.len() < 5 {
            unit_bytes(0)
        } else {
            unit_bytes(unit_value(name.subrange(1, 5))) + raw_bytes(name.skip(5))
        }
    } else {
        encode_scalar(name[0] as u32) + raw_bytes(name.skip(1))
    }
}

fn value_of_digit(digit: char) -> (value: Option<u16>)
    ensures
        match digit_value(digit) {
            Some(known) => value matches Some(value) && value == known && value < 16,
            None => value is None,
        },
{
    if '0' <= digit && digit <= '9' {
        Some((digit as u32 - 48) as u16)
    } else if 'a' <= digit && digit <= 'f' {
        Some((digit as u32 - 87) as u16)
    } else {
        None
    }
}

fn value_of_unit(one: char, two: char, three: char, four: char) -> (unit: u16)
    ensures
        unit == unit_value(seq![one, two, three, four]),
{
    match (value_of_digit(one), value_of_digit(two), value_of_digit(three), value_of_digit(four)) {
        (Some(one), Some(two), Some(three), Some(four)) => 4096 * one + 256 * two + 16 * three
            + four,
        _ => 0,
    }
}

fn push_unit(bytes: &mut Vec<u8>, unit: u16)
    ensures
        final(bytes)@ == old(bytes)@ + unit_bytes(unit as nat),
{
    let ghost before = bytes@;
    if unit < 256 {
        bytes.push(unit as u8);
    } else {
        bytes.push((0xe0 + unit / 4096) as u8);
        bytes.push((0x80 + unit / 64 % 64) as u8);
        bytes.push((0x80 + unit % 64) as u8);
    }
    proof {
        assert(bytes@ =~= before + unit_bytes(unit as nat));
    }
}

fn push_character(bytes: &mut Vec<u8>, character: char)
    ensures
        final(bytes)@ == old(bytes)@ + encode_scalar(character as u32),
{
    let mut text = String::new();
    text.push(character);
    let encoded = text.as_str().as_bytes();
    proof {
        assert(text@ =~= seq![character]);
        assert(text@.drop_first() =~= Seq::<char>::empty());
        reveal_with_fuel(encode_utf8, 2);
        assert(encoded@ =~= encode_scalar(character as u32));
    }
    let ghost before = bytes@;
    let mut at: usize = 0;
    while at < encoded.len()
        invariant
            at <= encoded@.len(),
            bytes@ == before + encoded@.take(at as int),
        decreases encoded@.len() - at,
    {
        bytes.push(encoded[at]);
        at += 1;
        proof {
            assert(bytes@ =~= before + encoded@.take(at as int));
        }
    }
    proof {
        assert(encoded@.take(at as int) =~= encoded@);
    }
}

/// The bytes of a name, by which the platform orders names.
pub fn bytes_of_name(name: &str) -> (bytes: Vec<u8>)
    ensures
        bytes@ == raw_bytes(name@),
{
    let chars = chars_of(name);
    let mut bytes: Vec<u8> = Vec::new();
    let mut at: usize = 0;
    proof {
        assert(chars@.skip(0) =~= chars@);
        assert(bytes@ + raw_bytes(chars@) =~= raw_bytes(chars@));
    }
    while at < chars.len()
        invariant
            at <= chars.len(),
            bytes@ + raw_bytes(chars@.skip(at as int)) == raw_bytes(chars@),
        decreases chars.len() - at,
    {
        let ghost rest = chars@.skip(at as int);
        let ghost before = bytes@;
        if chars[at] != '\0' {
            push_character(&mut bytes, chars[at]);
            at += 1;
            proof {
                assert(rest.skip(1) =~= chars@.skip(at as int));
                assert(bytes@ + raw_bytes(rest.skip(1)) =~= before + raw_bytes(rest));
            }
        } else if chars.len() - at < 5 {
            push_unit(&mut bytes, 0);
            at = chars.len();
            proof {
                assert(chars@.skip(at as int) =~= Seq::<char>::empty());
                assert(bytes@ + raw_bytes(chars@.skip(at as int)) =~= before + raw_bytes(rest));
            }
        } else {
            let unit = value_of_unit(chars[at + 1], chars[at + 2], chars[at + 3], chars[at + 4]);
            push_unit(&mut bytes, unit);
            at += 5;
            proof {
                assert(rest.subrange(1, 5) =~= seq![rest[1], rest[2], rest[3], rest[4]]);
                assert(rest.skip(5) =~= chars@.skip(at as int));
                assert(bytes@ + raw_bytes(rest.skip(5)) =~= before + raw_bytes(rest));
            }
        }
    }
    proof {
        assert(bytes@ + raw_bytes(chars@.skip(at as int)) =~= bytes@);
    }
    bytes
}

/// Those of `parts` that say something, in their order.
pub open spec fn saying_parts(parts: Seq<Seq<char>>) -> Seq<Seq<char>>
    decreases parts.len(),
{
    if parts.len() == 0 {
        parts
    } else if parts.last().len() == 0 || parts.last() == seq!['.'] {
        saying_parts(parts.drop_last())
    } else {
        saying_parts(parts.drop_last()).push(parts.last())
    }
}

/// The text with `/` for every separator of the platform.
pub open spec fn with_separators(style: PathStyle, text: Seq<char>) -> Seq<char> {
    match style {
        PathStyle::Unix => text,
        PathStyle::Windows => with_replaced(text, '\\', '/'),
    }
}

/// Whether a character is the letter of a drive.
pub open spec fn is_drive_letter(letter: char) -> bool {
    'a' <= letter <= 'z' || 'A' <= letter <= 'Z'
}

/// The letter of a drive in upper case.
pub open spec fn drive_letter(letter: char) -> char {
    if 'a' <= letter <= 'z' {
        (letter as int - 32) as char
    } else {
        letter
    }
}

/// Whether a part begins with a drive.
pub open spec fn begins_with_drive(part: Seq<char>) -> bool {
    part.len() >= 2 && is_drive_letter(part[0]) && part[1] == ':'
}

/// Whether the parts of a Windows path begin with a share: two separators, a
/// server and a share.
pub open spec fn begins_with_share(parts: Seq<Seq<char>>) -> bool {
    &&& parts.len() >= 4
    &&& parts[0].len() == 0 && parts[1].len() == 0
    &&& parts[2].len() > 0 && parts[3].len() > 0
}

/// Whether the share at the beginning is behind the `\\?\UNC\` of a path that is
/// taken literally.
pub open spec fn names_share_literally(parts: Seq<Seq<char>>) -> bool {
    &&& parts.len() >= 6
    &&& parts[2] == seq!['?'] && parts[3] == seq!['U', 'N', 'C']
    &&& parts[4].len() > 0 && parts[5].len() > 0
}

/// The name of a share, where `\\?\` may have a drive in its place.
pub open spec fn share_name(server: Seq<char>, share: Seq<char>) -> Seq<char> {
    if server == seq!['?'] && share.len() == 2 && begins_with_drive(share) {
        seq![drive_letter(share[0]), ':']
    } else {
        share
    }
}

/// What a path begins with before its first part, given the parts of its text.
pub open spec fn path_start(style: PathStyle, parts: Seq<Seq<char>>) -> Seq<char> {
    if style == PathStyle::Windows && begins_with_share(parts) {
        let share = seq!['/', '/'] + parts[2] + seq!['/'] + share_name(parts[2], parts[3])
            + seq!['/'];
        if names_share_literally(parts) {
            share + parts[4] + seq!['/'] + parts[5] + seq!['/']
        } else {
            share
        }
    } else if style == PathStyle::Windows && begins_with_drive(parts[0]) {
        if parts.len() >= 2 && parts[0].len() == 2 {
            seq![drive_letter(parts[0][0]), ':', '/']
        } else {
            seq![drive_letter(parts[0][0]), ':', '*', '/']
        }
    } else if parts.len() >= 2 && parts[0].len() == 0 {
        seq!['/']
    } else {
        Seq::empty()
    }
}

/// The parts behind what a path begins with.
pub open spec fn path_rest(style: PathStyle, parts: Seq<Seq<char>>) -> Seq<Seq<char>> {
    if style == PathStyle::Windows && begins_with_share(parts) {
        if names_share_literally(parts) {
            parts.skip(6)
        } else {
            parts.skip(4)
        }
    } else if style == PathStyle::Windows && begins_with_drive(parts[0]) {
        if parts.len() >= 2 && parts[0].len() == 2 {
            parts.skip(1)
        } else {
            parts.update(0, parts[0].skip(2))
        }
    } else if parts.len() >= 2 && parts[0].len() == 0 {
        parts.skip(1)
    } else {
        parts
    }
}

/// Whether a path that begins like this is relative to some directory.
pub open spec fn is_relative_start(start: Seq<char>) -> bool {
    start.len() == 0 || start.len() == 4 && start[1] == ':'
}

/// The parts that are written: those that say something, and a `.` in front if
/// the path is relative and begins with it.
pub open spec fn written_parts(parts: Seq<Seq<char>>, relative: bool) -> Seq<Seq<char>> {
    if relative && parts.len() > 0 && parts[0] == seq!['.'] {
        seq![seq!['.']] + saying_parts(parts)
    } else {
        saying_parts(parts)
    }
}

/// The parts of a text between its separators.
pub open spec fn text_parts(style: PathStyle, text: Seq<char>) -> Seq<Seq<char>> {
    split_at_each(with_separators(style, text), '/')
}

/// A path in its one form.
pub open spec fn normal_form(style: PathStyle, text: Seq<char>) -> Seq<char> {
    let parts = text_parts(style, text);
    let start = path_start(style, parts);
    start + joined_with(
        written_parts(path_rest(style, parts), is_relative_start(start)),
        seq!['/'],
    )
}

/// The root of the drive or share that a path begins with.
pub open spec fn root_of(path: Seq<char>) -> Seq<char> {
    let start = path_start(PathStyle::Windows, split_at_each(path, '/'));
    if start.len() == 0 {
        seq!['/']
    } else if is_relative_start(start) {
        start.take(2).push('/')
    } else {
        start
    }
}

/// Where `text` leads from `base`: to a place of its own if it begins with a
/// drive, a share or a root, where a root without a drive is that of the drive
/// or share of `base`.
pub open spec fn led_to(style: PathStyle, base: Seq<char>, text: Seq<char>) -> Seq<char> {
    let parts = text_parts(style, text);
    let start = path_start(style, parts);
    let rest = path_rest(style, parts);
    if start.len() == 0 {
        let written = joined_with(
            written_parts(rest, is_relative_start(base) && (base.len() > 0 ==> base[3] == '/')),
            seq!['/'],
        );
        if written.len() == 0 {
            base
        } else {
            joined(base, written)
        }
    } else if style == PathStyle::Windows && start == seq!['/'] {
        root_of(base) + joined_with(saying_parts(rest), seq!['/'])
    } else {
        normal_form(style, text)
    }
}

/// Whether a path is nothing but what paths of the platform begin with.
pub open spec fn is_start(style: PathStyle, path: Seq<char>) -> bool {
    path.len() > 0 && path_start(style, split_at_each(path, '/')) == path
}

/// The directory that a path stands in, unless it is a root or empty.
pub open spec fn parent_of(style: PathStyle, path: Seq<char>) -> Option<Seq<char>> {
    let head = path.take(last_part_start(path));
    if last_part(path).len() == 0 {
        None
    } else if head.len() == 0 || is_start(style, head) {
        Some(head)
    } else {
        Some(head.drop_last())
    }
}

fn upper_letter(letter: char) -> (upper: char)
    requires
        is_drive_letter(letter),
    ensures
        upper == drive_letter(letter),
{
    if 'a' <= letter && letter <= 'z' {
        (letter as u32 - 32) as u8 as char
    } else {
        letter
    }
}

/// Whether a part begins with a drive.
pub fn has_drive(part: &Vec<char>) -> (found: bool)
    ensures
        found == begins_with_drive(part@),
{
    part.len() >= 2 && ('a' <= part[0] && part[0] <= 'z' || 'A' <= part[0] && part[0] <= 'Z')
        && part[1] == ':'
}

fn is_mark(part: &Vec<char>, mark: char) -> (same: bool)
    ensures
        same == (part@ == seq![mark]),
{
    let same = part.len() == 1 && part[0] == mark;
    proof {
        if same {
            assert(part@ =~= seq![mark]);
        }
    }
    same
}

fn split_text(style: PathStyle, text: &str) -> (parts: Vec<Vec<char>>)
    ensures
        views(parts@) == text_parts(style, text@),
        parts.len() > 0,
{
    let chars = chars_of(text);
    match style {
        PathStyle::Unix => split(&chars, '/'),
        PathStyle::Windows => split(&replace_char(&chars, '\\', '/'), '/'),
    }
}

/// What a path begins with, and the parts behind it.
fn begin(style: PathStyle, given: Vec<Vec<char>>) -> (begun: (String, Vec<Vec<char>>))
    requires
        given.len() > 0,
    ensures
        begun.0@ == path_start(style, views(given@)),
        views(begun.1@) == path_rest(style, views(given@)),
{
    let ghost seen = views(given@);
    let mut parts = given;
    let mut start = String::new();
    proof {
        assert(forall|i: int| 0 <= i < seen.len() ==> seen[i] == #[trigger] parts@[i]@);
    }
    let windows = style == PathStyle::Windows;
    if windows && parts.len() >= 4 && parts[0].len() == 0 && parts[1].len() == 0 && parts[2].len()
        > 0 && parts[3].len() > 0 {
        let literal = is_mark(&parts[2], '?');
        start.push('/');
        start.push('/');
        start.append(&text_of(&parts[2]));
        start.push('/');
        if literal && parts[3].len() == 2 && has_drive(&parts[3]) {
            start.push(upper_letter(parts[3][0]));
            start.push(':');
        } else {
            start.append(&text_of(&parts[3]));
        }
        start.push('/');
        proof {
            assert(start@ =~= seq!['/', '/'] + seen[2] + seq!['/'] + share_name(seen[2], seen[3])
                + seq!['/']);
        }
        let deep = literal && parts.len() >= 6 && parts[3].len() == 3 && parts[3][0] == 'U'
            && parts[3][1] == 'N' && parts[3][2] == 'C' && parts[4].len() > 0 && parts[5].len() > 0;
        proof {
            if parts@[3].len() == 3 && parts@[3][0] == 'U' && parts@[3][1] == 'N' && parts@[3][2]
                == 'C' {
                assert(seen[3] =~= seq!['U', 'N', 'C']);
            }
            assert(deep == names_share_literally(seen));
        }
        let skipped: usize = if deep {
            let ghost before = start@;
            start.append(&text_of(&parts[4]));
            start.push('/');
            start.append(&text_of(&parts[5]));
            start.push('/');
            proof {
                assert(start@ =~= before + seen[4] + seq!['/'] + seen[5] + seq!['/']);
            }
            6
        } else {
            4
        };
        let rest = parts.split_off(skipped);
        proof {
            assert(views(rest@) =~= seen.skip(skipped as int));
        }
        return (start, rest);
    }
    proof {
        assert(!(windows && begins_with_share(seen)));
    }
    if windows && has_drive(&parts[0]) {
        start.push(upper_letter(parts[0][0]));
        start.push(':');
        if parts.len() >= 2 && parts[0].len() == 2 {
            start.push('/');
            let rest = parts.split_off(1);
            proof {
                assert(start@ =~= seq![drive_letter(seen[0][0]), ':', '/']);
                assert(views(rest@) =~= seen.skip(1));
            }
            return (start, rest);
        }
        start.push('*');
        start.push('/');
        let first = part_of(&parts[0], 2, parts[0].len());
        proof {
            assert(start@ =~= seq![drive_letter(seen[0][0]), ':', '*', '/']);
            assert(first@ =~= seen[0].skip(2));
        }
        parts.set(0, first);
        proof {
            assert(views(parts@) =~= seen.update(0, seen[0].skip(2)));
        }
        return (start, parts);
    }
    if parts.len() >= 2 && parts[0].len() == 0 {
        start.push('/');
        let rest = parts.split_off(1);
        proof {
            assert(start@ =~= seq!['/']);
            assert(views(rest@) =~= seen.skip(1));
        }
        return (start, rest);
    }
    (start, parts)
}

fn write_parts(parts: &Vec<Vec<char>>, relative: bool) -> (text: String)
    ensures
        text@ == joined_with(written_parts(views(parts@), relative), seq!['/']),
{
    let ghost seen = views(parts@);
    let dotted = relative && parts.len() > 0 && is_mark(&parts[0], '.');
    proof {
        if parts.len() > 0 {
            assert(seen[0] == parts@[0]@);
        }
    }
    let ghost lead = if dotted {
        seq![seq!['.']]
    } else {
        Seq::empty()
    };
    let mut said = String::new();
    let mut any = dotted;
    if dotted {
        said.push('.');
    }
    let mut at: usize = 0;
    proof {
        assert(lead + saying_parts(seen.take(0)) =~= lead);
        assert(joined_with(lead, seq!['/']) =~= said@);
    }
    while at < parts.len()
        invariant
            at <= parts.len(),
            seen == views(parts@),
            any == ((lead + saying_parts(seen.take(at as int))).len() > 0),
            said@ == joined_with(lead + saying_parts(seen.take(at as int)), seq!['/']),
        decreases parts.len() - at,
    {
        let part = &parts[at];
        let ghost before = lead + saying_parts(seen.take(at as int));
        proof {
            assert(seen.take(at + 1).drop_last() =~= seen.take(at as int));
            assert(seen[at as int] == part@);
        }
        let silent = part.len() == 0 || is_mark(part, '.');
        if !silent {
            let ghost had = said@;
            if any {
                said.push('/');
            }
            let text = text_of(part);
            said.append(&text);
            any = true;
            proof {
                let after = lead + saying_parts(seen.take(at + 1));
                assert(after =~= before.push(part@));
                assert(after.drop_last() =~= before);
                if before.len() == 0 {
                    assert(had =~= Seq::<char>::empty());
                    assert(said@ =~= part@);
                } else {
                    assert(said@ =~= had + seq!['/'] + part@);
                }
            }
        }
        at += 1;
    }
    proof {
        assert(seen.take(at as int) =~= seen);
        assert(lead + saying_parts(seen) =~= written_parts(seen, relative));
    }
    said
}

fn is_free(start: &str) -> (free: bool)
    ensures
        free == is_relative_start(start@),
{
    let chars = chars_of(start);
    chars.len() == 0 || chars.len() == 4 && chars[1] == ':'
}

impl FilePath {
    /// The path that `text` means on a platform, in its one form.
    pub fn parse(style: PathStyle, text: &str) -> (path: FilePath)
        ensures
            path@ == normal_form(style, text@),
    {
        let (start, rest) = begin(style, split_text(style, text));
        let written = write_parts(&rest, is_free(&start));
        FilePath { text: join_two(&start, &written) }
    }

    /// The root of the drive or share that this path begins with.
    fn root(&self) -> (root: String)
        ensures
            root@ == root_of(self@),
    {
        let (start, _) = begin(PathStyle::Windows, split(&chars_of(&self.text), '/'));
        let chars = chars_of(&start);
        if chars.len() == 0 {
            let mut root = String::new();
            root.push('/');
            proof {
                assert(root@ =~= seq!['/']);
            }
            return root;
        }
        if is_free(&start) {
            let mut root = text_of(&part_of(&chars, 0, 2));
            root.push('/');
            proof {
                assert(root@ =~= start@.take(2).push('/'));
            }
            return root;
        }
        start
    }

    /// Where `text` leads from this path.
    pub fn lead(&self, style: PathStyle, text: &str) -> (path: FilePath)
        ensures
            path@ == led_to(style, self@, text@),
    {
        let (start, rest) = begin(style, split_text(style, text));
        let begun = chars_of(&start);
        if begun.len() == 0 {
            let base = chars_of(&self.text);
            let bare = base.len() == 0 || base.len() == 4 && base[1] == ':' && base[3] == '/';
            let written = write_parts(&rest, bare);
            if chars_of(&written).len() == 0 {
                return self.clone();
            }
            return self.join(&written);
        }
        if style == PathStyle::Windows && is_mark(&begun, '/') {
            let root = self.root();
            let written = write_parts(&rest, false);
            return FilePath { text: join_two(&root, &written) };
        }
        FilePath::parse(style, text)
    }

    /// The directory that this path stands in, unless it is a root or empty.
    pub fn parent(&self, style: PathStyle) -> (parent: Option<FilePath>)
        ensures
            match parent_of(style, self@) {
                Some(head) => parent matches Some(parent) && parent@ == head,
                None => parent is None,
            },
    {
        let chars = chars_of(&self.text);
        let start = self.name_start(&chars);
        if start == chars.len() {
            return None;
        }
        let head = part_of(&chars, 0, start);
        proof {
            assert(head@ =~= self@.take(start as int));
        }
        if head.len() == 0 {
            return Some(FilePath { text: text_of(&head) });
        }
        let (begun, _) = begin(style, split(&head, '/'));
        let head_text = text_of(&head);
        if same_text(&begun, &head_text) {
            return Some(FilePath { text: head_text });
        }
        let shorter = part_of(&head, 0, head.len() - 1);
        proof {
            assert(shorter@ =~= head@.drop_last());
        }
        Some(FilePath { text: text_of(&shorter) })
    }

    /// The path written as `text`, which has to be in its one form already.
    pub fn new(text: &str) -> (path: FilePath)
        ensures
            path@ == text@,
    {
        FilePath { text: text.to_owned() }
    }

    /// Whether two paths are the same.
    pub fn same(&self, other: &FilePath) -> (same: bool)
        ensures
            same == (self@ == other@),
    {
        self.text == other.text
    }

    /// This path with one more part.
    pub fn join(&self, part: &str) -> (path: FilePath)
        ensures
            path@ == joined(self@, part@),
    {
        let chars = chars_of(&self.text);
        if chars.len() == 0 || chars[chars.len() - 1] == '/' {
            return FilePath { text: join_two(&self.text, part) };
        }
        proof {
            reveal_strlit("/");
            assert(self@ + "/"@ =~= self@.push('/'));
        }
        FilePath { text: join_three(&self.text, "/", part) }
    }

    fn name_start(&self, chars: &Vec<char>) -> (start: usize)
        requires
            chars@ == self@,
        ensures
            start == last_part_start(self@),
            start <= chars.len(),
    {
        let mut start: usize = chars.len();
        proof {
            assert(chars@.take(start as int) =~= chars@);
        }
        while start > 0 && chars[start - 1] != '/'
            invariant
                start <= chars.len(),
                last_part_start(chars@) == last_part_start(chars@.take(start as int)),
            decreases start,
        {
            proof {
                assert(chars@.take(start as int).drop_last() =~= chars@.take(start - 1));
            }
            start -= 1;
        }
        proof {
            if start > 0 {
                assert(chars@.take(start as int).last() == '/');
            }
        }
        start
    }

    /// The name of the file or directory, where the path has one.
    pub fn file_name(&self) -> (name: Option<String>)
        ensures
            name is Some <==> has_name(self@),
            name matches Some(name) ==> name@ == last_part(self@),
    {
        let chars = chars_of(&self.text);
        let start = self.name_start(&chars);
        let part = part_of(&chars, start, chars.len());
        proof {
            assert(part@ =~= chars@.skip(start as int));
            if part.len() == 1 && part[0] == '.' {
                assert(part@ =~= seq!['.']);
            }
            if part.len() == 2 && part[0] == '.' && part[1] == '.' {
                assert(part@ =~= seq!['.', '.']);
            }
        }
        if part.len() == 0 || part.len() == 1 && part[0] == '.' || part.len() == 2 && part[0]
            == '.' && part[1] == '.' {
            None
        } else {
            Some(text_of(&part))
        }
    }

    /// The path of `name` next to the file at this path.
    pub fn neighbour(&self, name: &str) -> (path: FilePath)
        ensures
            path@ == beside(self@, name@),
    {
        let chars = chars_of(&self.text);
        let start = self.name_start(&chars);
        let folder = part_of(&chars, 0, start);
        let mut text = text_of(&folder);
        text.append(name);
        proof {
            assert(folder@ =~= self@.take(start as int));
        }
        FilePath { text }
    }

    /// This path with another extension.
    pub fn with_extension(&self, extension: &str) -> (path: FilePath)
        ensures
            path@ == with_extension(self@, extension@),
    {
        match self.file_name() {
            None => self.clone(),
            Some(name) => {
                let chars = chars_of(&name);
                let mut end: usize = chars.len();
                while end > 1 && chars[end - 1] != '.'
                    invariant
                        end <= chars.len(),
                        stem(chars@) == stem_up_to(chars@, end as int),
                    decreases end,
                {
                    end -= 1;
                }
                let kept = if end > 1 {
                    part_of(&chars, 0, end - 1)
                } else {
                    chars
                };
                proof {
                    if end > 1 {
                        assert(kept@ =~= chars@.take(end - 1));
                    }
                    assert(kept@ == stem(chars@));
                }
                let kept = text_of(&kept);
                self.neighbour(&join_three(&kept, ".", extension))
            },
        }
    }

    /// Whether this path is `base` or lies below it.
    pub fn lies_within(&self, base: &FilePath) -> (within: bool)
        ensures
            within == is_within(self@, base@),
    {
        if same_text(&self.text, &base.text) {
            return true;
        }
        proof {
            reveal_strlit("/");
            assert("/"@ =~= seq!['/']);
            reveal_strlit("");
            assert(""@ =~= Seq::<char>::empty());
        }
        if base.text.as_str().is_empty() {
            return true;
        }
        let prefix = base.join("");
        crate::text::starts_with(&self.text, &prefix.text)
    }
}

/// The last part of a path stands behind its last separator.
proof fn last_part_starts_behind(folder: Seq<char>, name: Seq<char>)
    requires
        !name.contains('/'),
        folder.len() == 0 || folder.last() == '/',
    ensures
        last_part_start(folder + name) == folder.len(),
    decreases name.len(),
{
    let path = folder + name;
    if name.len() > 0 {
        let shorter = name.drop_last();
        assert(name.contains(name.last()));
        assert forall|c: char| shorter.contains(c) implies name.contains(c) by {
            let i = choose|i: int| 0 <= i < shorter.len() && shorter[i] == c;
            assert(name[i] == c);
        }
        last_part_starts_behind(folder, shorter);
        assert(path.drop_last() =~= folder + shorter);
    } else {
        assert(path =~= folder);
    }
}

/// A part that is joined to a path stands behind it and one separator, and
/// below it. On Unix the path is the parent of what was joined to it.
pub proof fn joined_parts_stand_below(base: Seq<char>, part: Seq<char>)
    requires
        part.len() > 0,
        !part.contains('/'),
    ensures
        base.len() > 0 && base.last() != '/' ==> joined(base, part) == base + "/"@ + part
            && parent_of(PathStyle::Unix, joined(base, part)) == Some(base),
        base.len() == 0 ==> joined(base, part) == part && parent_of(
            PathStyle::Unix,
            joined(base, part),
        ) == Some(base),
        base.len() > 0 && base.last() == '/' ==> joined(base, part) == base + part,
        is_within(joined(base, part), base),
{
    reveal_strlit("/");
    let whole = joined(base, part);
    let head = if base.len() == 0 || base.last() == '/' {
        base
    } else {
        base.push('/')
    };
    assert(whole =~= head + part);
    last_part_starts_behind(head, part);
    assert(whole.take(head.len() as int) =~= head);
    assert(whole.skip(head.len() as int) =~= part);
    if base.len() > 0 && base.last() != '/' {
        assert(base.push('/') =~= base + "/"@);
        assert(!is_start(PathStyle::Unix, head));
        assert(head.drop_last() =~= base);
    }
    if base.len() > 0 {
        let below = joined(base, Seq::empty());
        assert(below =~= head);
        assert(whole.subrange(0, below.len() as int) =~= below);
    }
}

/// What lies within a directory is the directory itself, or its path with one
/// separator and something more. A name that merely begins alike lies outside.
pub proof fn within_is_below(path: Seq<char>, base: Seq<char>)
    requires
        base.len() > 0,
        base.last() != '/',
    ensures
        is_within(path, base) <==> path == base || (path.len() > base.len() && path.take(
            base.len() as int,
        ) == base && path[base.len() as int] == '/'),
{
    let below = joined(base, Seq::empty());
    assert(below =~= base.push('/'));
    if is_within(path, base) && path != base {
        assert(path.subrange(0, below.len() as int) == below);
        assert(path.take(base.len() as int) =~= below.take(base.len() as int));
        assert(below.take(base.len() as int) =~= base);
        assert(path[base.len() as int] == path.subrange(0, below.len() as int)[base.len() as int]);
    }
    if path.len() > base.len() && path.take(base.len() as int) == base && path[base.len() as int]
        == '/' {
        assert(path.subrange(0, below.len() as int) =~= path.take(base.len() as int).push('/'));
    }
}

/// The neighbour of a file stands in the same directory.
pub proof fn neighbours_share_the_directory(folder: Seq<char>, name: Seq<char>, other: Seq<char>)
    requires
        !name.contains('/'),
    ensures
        beside(folder + "/"@ + name, other) == folder + "/"@ + other,
        beside(name, other) == other,
{
    reveal_strlit("/");
    let head = folder + "/"@;
    last_part_starts_behind(head, name);
    assert((head + name).take(head.len() as int) =~= head);
    last_part_starts_behind(Seq::empty(), name);
    assert(Seq::<char>::empty() + name =~= name);
    assert(name.take(0) + other =~= other);
}

proof fn stem_ends_at_the_dot(name: Seq<char>, end: int, dot: int)
    requires
        0 < dot < end <= name.len(),
        name[dot] == '.',
        forall|i: int| dot < i < end ==> name[i] != '.',
    ensures
        stem_up_to(name, end) == name.take(dot),
    decreases end,
{
    if end - 1 > dot {
        stem_ends_at_the_dot(name, end - 1, dot);
    }
}

/// Another extension takes the place of the one behind the last dot, and
/// everything before that dot stays.
pub proof fn extensions_are_replaced(
    folder: Seq<char>,
    name: Seq<char>,
    extension: Seq<char>,
    other: Seq<char>,
)
    requires
        name.len() > 0,
        !name.contains('/'),
        extension.len() > 0,
        !extension.contains('/'),
        !extension.contains('.'),
    ensures
        with_extension(folder + "/"@ + name + "."@ + extension, other) == folder + "/"@ + name
            + "."@ + other,
{
    reveal_strlit("/");
    reveal_strlit(".");
    let head = folder + "/"@;
    let leaf = name + "."@ + extension;
    let path = folder + "/"@ + name + "."@ + extension;
    assert(!leaf.contains('/')) by {
        if leaf.contains('/') {
            let i = choose|i: int| 0 <= i < leaf.len() && leaf[i] == '/';
            if i < name.len() {
                assert(name[i] == '/');
            } else if i > name.len() {
                assert(extension[i - name.len() - 1] == '/');
            }
        }
    }
    assert(path =~= head + leaf);
    last_part_starts_behind(head, leaf);
    assert(path.take(head.len() as int) =~= head);
    assert(last_part(path) =~= leaf);
    assert(leaf.len() >= 3);
    assert forall|i: int| name.len() < i < leaf.len() implies leaf[i] != '.' by {
        assert(leaf[i] == extension[i - name.len() - 1]);
        assert(extension.contains(extension[i - name.len() - 1]));
    }
    stem_ends_at_the_dot(leaf, leaf.len() as int, name.len() as int);
    assert(leaf.take(name.len() as int) =~= name);
    assert(head + (name + "."@ + other) =~= folder + "/"@ + name + "."@ + other);
}

/// The parts of a path that are kept are, in their order, those that are
/// neither empty nor a single dot.
pub proof fn only_what_says_something_is_kept(parts: Seq<Seq<char>>) -> (picked: Seq<int>)
    ensures
        picks(picked, parts.len() as int, |i: int| parts[i].len() > 0 && parts[i] != seq!['.']),
        saying_parts(parts).len() == picked.len(),
        forall|k: int|
            #![trigger saying_parts(parts)[k]]
            0 <= k < picked.len() ==> saying_parts(parts)[k] == parts[picked[k]],
    decreases parts.len(),
{
    let here = |i: int| parts[i].len() > 0 && parts[i] != seq!['.'];
    if parts.len() == 0 {
        picks_nothing(here);
        Seq::empty()
    } else {
        let shorter = parts.drop_last();
        let before = only_what_says_something_is_kept(shorter);
        picks_grow(
            before,
            shorter.len() as int,
            |i: int| shorter[i].len() > 0 && shorter[i] != seq!['.'],
            here,
        )
    }
}

proof fn split_of_a_longer_text(text: Seq<char>, part: Seq<char>, separator: char)
    requires
        !part.contains(separator),
    ensures
        split_at_each(text.push(separator) + part, separator) == split_at_each(text, separator).push(
            part,
        ),
    decreases part.len(),
{
    let whole = text.push(separator) + part;
    if part.len() == 0 {
        assert(part =~= Seq::<char>::empty());
        assert(whole =~= text.push(separator));
        assert(whole.drop_last() =~= text);
    } else {
        let shorter = part.drop_last();
        assert(part.contains(part.last()));
        assert forall|c: char| shorter.contains(c) implies part.contains(c) by {
            let i = choose|i: int| 0 <= i < shorter.len() && shorter[i] == c;
            assert(part[i] == c);
        }
        split_of_a_longer_text(text, shorter, separator);
        assert(whole.drop_last() =~= text.push(separator) + shorter);
        let before = split_at_each(text, separator).push(shorter);
        assert(before.drop_last() =~= split_at_each(text, separator));
        assert(shorter.push(part.last()) =~= part);
    }
}

/// Parts that are joined by a separator are what the text is split into.
proof fn joined_parts_are_split_again(parts: Seq<Seq<char>>, separator: char)
    requires
        parts.len() > 0,
        forall|i: int| 0 <= i < parts.len() ==> !(#[trigger] parts[i]).contains(separator),
    ensures
        split_at_each(joined_with(parts, seq![separator]), separator) == parts,
    decreases parts.len(),
{
    if parts.len() == 1 {
        crate::text::written_parts_are_split_off(parts[0], separator, Seq::empty());
        assert(parts =~= seq![parts[0]]);
    } else {
        let shorter = parts.drop_last();
        assert forall|i: int| 0 <= i < shorter.len() implies !(#[trigger] shorter[i]).contains(
            separator,
        ) by {
            assert(shorter[i] == parts[i]);
        }
        joined_parts_are_split_again(shorter, separator);
        let text = joined_with(shorter, seq![separator]);
        assert(!parts[parts.len() - 1].contains(separator));
        split_of_a_longer_text(text, parts.last(), separator);
        assert(text + seq![separator] =~= text.push(separator));
        assert(shorter.push(parts.last()) =~= parts);
    }
}

/// A path from the root is written with the parts that say something, one
/// separator before each: doubled separators and single dots do not count, and
/// two spellings of one path have one form.
pub proof fn absolute_paths_have_one_form(parts: Seq<Seq<char>>)
    requires
        parts.len() > 0,
        forall|i: int| 0 <= i < parts.len() ==> !(#[trigger] parts[i]).contains('/'),
    ensures
        normal_form(PathStyle::Unix, seq!['/'] + joined_with(parts, seq!['/'])) == seq!['/']
            + joined_with(saying_parts(parts), seq!['/']),
{
    let text = seq!['/'] + joined_with(parts, seq!['/']);
    joined_parts_are_split_again(parts, '/');
    let nothing = Seq::<char>::empty();
    crate::text::written_parts_are_split_off(nothing, '/', joined_with(parts, seq!['/']));
    assert(nothing.push('/') =~= seq!['/']);
    let all = seq![nothing] + parts;
    assert(text_parts(PathStyle::Unix, text) == all);
    assert(all.skip(1) =~= parts);
}

/// A relative path is written with the parts that say something, and with a
/// dot in front only if it began with one.
pub proof fn relative_paths_have_one_form(parts: Seq<Seq<char>>)
    requires
        parts.len() > 0,
        parts[0].len() > 0,
        forall|i: int| 0 <= i < parts.len() ==> !(#[trigger] parts[i]).contains('/'),
    ensures
        normal_form(PathStyle::Unix, joined_with(parts, seq!['/'])) == joined_with(
            if parts[0] == seq!['.'] {
                seq![seq!['.']] + saying_parts(parts)
            } else {
                saying_parts(parts)
            },
            seq!['/'],
        ),
{
    let text = joined_with(parts, seq!['/']);
    joined_parts_are_split_again(parts, '/');
    assert(text_parts(PathStyle::Unix, text) == parts);
    assert(path_start(PathStyle::Unix, parts) =~= Seq::<char>::empty());
    assert(path_rest(PathStyle::Unix, parts) == parts);
}

proof fn separators_between_parts(parts: Seq<Seq<char>>, separator: char)
    requires
        separator == '/' || separator == '\\',
        forall|i: int| 0 <= i < parts.len() ==> !(#[trigger] parts[i]).contains('\\'),
    ensures
        with_separators(PathStyle::Windows, joined_with(parts, seq![separator])) == joined_with(
            parts,
            seq!['/'],
        ),
    decreases parts.len(),
{
    if parts.len() > 0 {
        let shorter = parts.drop_last();
        assert forall|i: int| 0 <= i < shorter.len() implies !(#[trigger] shorter[i]).contains(
            '\\',
        ) by {
            assert(shorter[i] == parts[i]);
        }
        separators_between_parts(shorter, separator);
        let last = parts[parts.len() - 1];
        assert forall|i: int| 0 <= i < last.len() implies #[trigger] last[i] != '\\' by {
            assert(last.contains(last[i]));
        }
        assert(with_replaced(last, '\\', '/') =~= last);
        let head = joined_with(shorter, seq![separator]);
        assert(with_replaced(head + seq![separator] + last, '\\', '/') =~= with_replaced(
            head,
            '\\',
            '/',
        ) + seq!['/'] + with_replaced(last, '\\', '/'));
        if parts.len() == 1 {
            assert(parts[0] == last);
        }
    } else {
        assert(with_replaced(joined_with(parts, seq![separator]), '\\', '/') =~= joined_with(
            parts,
            seq!['/'],
        ));
    }
}

/// A path on a drive is written with the letter in upper case and with the
/// parts that say something, whichever separator it was spelled with.
pub proof fn drive_paths_have_one_form(letter: char, separator: char, parts: Seq<Seq<char>>)
    requires
        'a' <= letter <= 'z' || 'A' <= letter <= 'Z',
        separator == '/' || separator == '\\',
        parts.len() > 0,
        forall|i: int|
            0 <= i < parts.len() ==> !(#[trigger] parts[i]).contains('/') && !parts[i].contains(
                '\\',
            ),
    ensures
        normal_form(
            PathStyle::Windows,
            seq![letter, ':', separator] + joined_with(parts, seq![separator]),
        ) == seq![
            if letter >= 'a' {
                (letter as int - 32) as char
            } else {
                letter
            },
            ':',
            '/',
        ] + joined_with(saying_parts(parts), seq!['/']),
{
    let text = seq![letter, ':', separator] + joined_with(parts, seq![separator]);
    separators_between_parts(parts, separator);
    let drive = seq![letter, ':'];
    let plain = joined_with(parts, seq!['/']);
    assert(with_replaced(text, '\\', '/') =~= drive.push('/') + with_replaced(
        joined_with(parts, seq![separator]),
        '\\',
        '/',
    ));
    assert(!drive.contains('/'));
    crate::text::written_parts_are_split_off(drive, '/', plain);
    joined_parts_are_split_again(parts, '/');
    let all = seq![drive] + parts;
    assert(text_parts(PathStyle::Windows, text) == all);
    assert(!begins_with_share(all)) by {
        assert(all[0].len() == 2);
    }
    assert(begins_with_drive(all[0]));
    assert(all.skip(1) =~= parts);
}

/// A relative text leads from a path to what stands below it by the parts of
/// the text that say something; a text from the root leads to its own place.
pub proof fn texts_lead_below_or_elsewhere(base: Seq<char>, parts: Seq<Seq<char>>)
    requires
        parts.len() > 0,
        forall|i: int| 0 <= i < parts.len() ==> !(#[trigger] parts[i]).contains('/'),
    ensures
        parts[0].len() > 0 && parts[0] != seq!['.'] ==> led_to(
            PathStyle::Unix,
            base,
            joined_with(parts, seq!['/']),
        ) == if joined_with(saying_parts(parts), seq!['/']).len() == 0 {
            base
        } else {
            joined(base, joined_with(saying_parts(parts), seq!['/']))
        },
        led_to(PathStyle::Unix, base, seq!['/'] + joined_with(parts, seq!['/'])) == seq!['/']
            + joined_with(saying_parts(parts), seq!['/']),
{
    joined_parts_are_split_again(parts, '/');
    absolute_paths_have_one_form(parts);
    let text = seq!['/'] + joined_with(parts, seq!['/']);
    let nothing = Seq::<char>::empty();
    crate::text::written_parts_are_split_off(nothing, '/', joined_with(parts, seq!['/']));
    assert(nothing.push('/') =~= seq!['/']);
    assert(text_parts(PathStyle::Unix, text) == seq![nothing] + parts);
    if parts[0].len() > 0 {
        assert(path_start(PathStyle::Unix, parts) =~= Seq::<char>::empty());
    }
}

/// A name that is text is stored as its UTF-8 bytes.
pub proof fn plain_names_are_their_utf8(name: Seq<char>)
    requires
        !name.contains('\0'),
    ensures
        raw_bytes(name) == encode_utf8(name),
    decreases name.len(),
{
    if name.len() > 0 {
        assert(name.contains(name[0]));
        let rest = name.skip(1);
        assert(rest =~= name.drop_first());
        assert(!rest.contains('\0')) by {
            if rest.contains('\0') {
                let i = choose|i: int| 0 <= i < rest.len() && rest[i] == '\0';
                assert(name[i + 1] == '\0');
            }
        }
        plain_names_are_their_utf8(rest);
    } else {
        assert(raw_bytes(name) =~= encode_utf8(name));
    }
}

} // verus!
