//! Taking DLLs out of a release archive.
//!
//! Only the production DLLs directly below `bin/x64` are of interest. But every
//! entry of the archive is checked: one bad path or one name that occurs twice
//! spoils the whole archive.

use crate::files::{FileAction, FileReply};
use crate::github::MAX_ARCHIVE_BYTES;
use crate::lists::{picks, picks_grow, picks_nothing};
use crate::model::{
    CatalogDll, DllMetadata, DllVersion, FileName, ReleaseId, ReleaseValidation, SignatureStatus,
};
use crate::paths::{joined, FilePath};
use crate::text::{
    ascii_folded, chars_of, ends, fold_text, folded_words_are_spelled, join_texts, join_three,
    join_two, joined_with, last_part_of_a_split, replace_char, same_chars, spells, split,
    split_at_each, stands_at, text_of, text_views, views, with_replaced,
};
use crate::traits::{error_text, CoreError};
use crate::trust::{
    is_nvidia_signature, nvidia_signature, RevocationStatus, TrustPolicy, TrustReport,
};
use vstd::prelude::*;

verus! {

/// How many entries an archive may have.
pub const MAX_ENTRIES: usize = 4096;

/// The largest DLL that is taken out of an archive: 256 MiB.
pub const MAX_DLL_BYTES: u64 = 268435456;

/// Why an archive was not accepted.
#[derive(Debug, PartialEq, Eq)]
pub enum CatalogError {
    Io { permission_denied: bool, message: String },
    Zip(String),
    TooLarge,
    TooManyEntries,
    UnsafePath(String),
    DuplicateEntry(String),
    InvalidPe(String),
    Untrusted(String),
    Inspection(String, String),
    NoProductionDlls,
    RejectedCandidates(String),
}

/// How an error is worded.
pub open spec fn catalog_error_text(error: CatalogError) -> Seq<char> {
    match error {
        CatalogError::Io { permission_denied: _, message } => "I/O error: "@ + message@,
        CatalogError::Zip(message) => "invalid ZIP: "@ + message@,
        CatalogError::TooLarge => "archive exceeds safety limit"@,
        CatalogError::TooManyEntries => "archive contains too many entries"@,
        CatalogError::UnsafePath(path) => "unsafe archive path: "@ + path@,
        CatalogError::DuplicateEntry(path) => "duplicate archive entry: "@ + path@,
        CatalogError::InvalidPe(name) => "candidate is not a valid x86-64 PE DLL: "@ + name@,
        CatalogError::Untrusted(name) => "candidate is not Authenticode trusted: "@ + name@,
        CatalogError::Inspection(name, reason) => "inspection failed for "@ + name@ + (": "@
            + reason@),
        CatalogError::NoProductionDlls => {
            "archive contains no immediate production x86-64 DLLs"@
        },
        CatalogError::RejectedCandidates(reasons) => "production DLL validation failed: "@
            + reasons@,
    }
}

impl CatalogError {
    /// The error in words.
    pub fn to_text(&self) -> (text: String)
        ensures
            text@ == catalog_error_text(*self),
    {
        match self {
            CatalogError::Io { permission_denied: _, message } => join_two("I/O error: ", message),
            CatalogError::Zip(message) => join_two("invalid ZIP: ", message),
            CatalogError::TooLarge => "archive exceeds safety limit".to_owned(),
            CatalogError::TooManyEntries => "archive contains too many entries".to_owned(),
            CatalogError::UnsafePath(path) => join_two("unsafe archive path: ", path),
            CatalogError::DuplicateEntry(path) => join_two("duplicate archive entry: ", path),
            CatalogError::InvalidPe(name) => {
                join_two("candidate is not a valid x86-64 PE DLL: ", name)
            },
            CatalogError::Untrusted(name) => {
                join_two("candidate is not Authenticode trusted: ", name)
            },
            CatalogError::Inspection(name, reason) => {
                let detail = join_two(": ", reason);
                join_three("inspection failed for ", name, &detail)
            },
            CatalogError::NoProductionDlls => {
                "archive contains no immediate production x86-64 DLLs".to_owned()
            },
            CatalogError::RejectedCandidates(reasons) => {
                join_two("production DLL validation failed: ", reasons)
            },
        }
    }
}

/// What a release archive was found to hold.
#[derive(Debug, PartialEq, Eq)]
pub struct ValidatedRelease {
    pub dlls: Vec<CatalogDll>,
    pub validation: ReleaseValidation,
}

/// An entry of an archive.
#[derive(Debug, PartialEq, Eq)]
pub struct EntryFacts {
    /// The name as the archive gives it.
    pub raw_name: String,
    /// The name as a relative path that stays inside the directory it is
    /// unpacked to, if it is one.
    pub enclosed_name: Option<String>,
    /// The unpacked size that the archive announces.
    pub size: u64,
}

/// A name with `/` in place of `\`.
pub open spec fn with_slashes(name: Seq<char>) -> Seq<char> {
    with_replaced(name, '\\', '/')
}

/// Those of `parts` that are not empty, in their order.
pub open spec fn solid(parts: Seq<Seq<char>>) -> Seq<Seq<char>>
    decreases parts.len(),
{
    if parts.len() == 0 {
        parts
    } else if parts.last().len() == 0 {
        solid(parts.drop_last())
    } else {
        solid(parts.drop_last()).push(parts.last())
    }
}

/// The parts of a path inside an archive.
pub open spec fn path_parts(path: Seq<char>) -> Seq<Seq<char>> {
    solid(split_at_each(path, '/'))
}

/// Whether a path leads to a production DLL: a DLL directly in `bin/x64`, but
/// not the Vulkan low latency layer.
pub open spec fn is_production_dll(path: Seq<char>) -> bool {
    let parts = path_parts(path);
    &&& parts.len() == 3
    &&& ascii_folded(parts[0]) == "bin"@
    &&& ascii_folded(parts[1]) == "x64"@
    &&& ends(ascii_folded(parts[2]), ".dll"@)
    &&& ascii_folded(parts[2]) != "nvlowlatencyvk.dll"@
}

/// What is to be done with an entry.
pub enum EntryVerdict {
    Unsafe,
    Duplicate,
    Skip,
    TooLarge,
    Candidate { name: Seq<char> },
}

/// The name under which an entry is compared with the others.
pub open spec fn entry_key(entry: EntryFacts) -> Seq<char> {
    ascii_folded(with_slashes(entry.enclosed_name->0@))
}

/// What is to be done with an entry, given the names that came before.
pub open spec fn entry_verdict(seen: Seq<Seq<char>>, entry: EntryFacts) -> EntryVerdict {
    match entry.enclosed_name {
        None => EntryVerdict::Unsafe,
        Some(name) => {
            let path = with_slashes(name@);
            if seen.contains(ascii_folded(path)) {
                EntryVerdict::Duplicate
            } else if !is_production_dll(path) {
                EntryVerdict::Skip
            } else if entry.size > MAX_DLL_BYTES {
                EntryVerdict::TooLarge
            } else {
                EntryVerdict::Candidate { name: path_parts(path)[2] }
            }
        },
    }
}

fn keep_solid(parts: Vec<Vec<char>>) -> (kept: Vec<Vec<char>>)
    ensures
        views(kept@) == solid(views(parts@)),
{
    let ghost given = views(parts@);
    let mut rest = parts;
    let mut kept: Vec<Vec<char>> = Vec::new();
    proof {
        assert(views(kept@) =~= solid(given.take(0)));
        assert(views(rest@) =~= given.skip(0));
    }
    while rest.len() > 0
        invariant
            rest.len() <= given.len(),
            views(rest@) == given.skip(given.len() - rest.len()),
            views(kept@) == solid(given.take(given.len() - rest.len())),
        decreases rest.len(),
    {
        let ghost done = given.len() - rest.len();
        proof {
            assert(views(rest@)[0] == given[done]);
            assert(given.take(done + 1).drop_last() =~= given.take(done));
        }
        let ghost rest_before = rest@;
        let part = rest.remove(0);
        proof {
            assert(views(rest@) =~= given.skip(done).drop_first());
            assert(given.skip(done).drop_first() =~= given.skip(done + 1));
            assert(part@ == given[done]);
        }
        if part.len() > 0 {
            let ghost before = views(kept@);
            kept.push(part);
            proof {
                assert(views(kept@) =~= before.push(part@));
            }
        }
    }
    proof {
        assert(given.take(given.len() as int) =~= given);
    }
    kept
}

fn is_folded(text: &Vec<char>, name: &str) -> (same: bool)
    ensures
        same == (ascii_folded(text@) == name@),
{
    let text = text_of(text);
    let folded = fold_text(&text);
    let name = chars_of(name);
    same_chars(&folded, &name)
}

fn ends_folded(text: &Vec<char>, end: &str) -> (found: bool)
    ensures
        found == ends(ascii_folded(text@), end@),
{
    let text = text_of(text);
    let folded = fold_text(&text);
    let end = chars_of(end);
    end.len() <= folded.len() && stands_at(&folded, &end, folded.len() - end.len())
}

fn holds_name(seen: &Vec<Vec<char>>, name: &Vec<char>) -> (found: bool)
    ensures
        found == views(seen@).contains(name@),
{
    let mut at: usize = 0;
    while at < seen.len()
        invariant
            at <= seen.len(),
            forall|i: int| 0 <= i < at ==> #[trigger] views(seen@)[i] != name@,
        decreases seen.len() - at,
    {
        if same_chars(&seen[at], name) {
            proof {
                assert(views(seen@)[at as int] == name@);
            }
            return true;
        }
        at += 1;
    }
    false
}

/// Decides what is to be done with an entry and notes its name: `None` to leave
/// it, or the name of the DLL to take out.
pub fn admit_entry(seen: &mut Vec<Vec<char>>, entry: &EntryFacts) -> (verdict: Result<
    Option<String>,
    CatalogError,
>)
    ensures
        match entry_verdict(views(old(seen)@), *entry) {
            EntryVerdict::Unsafe => verdict matches Err(CatalogError::UnsafePath(path)) && path@
                == with_slashes(entry.raw_name@),
            EntryVerdict::Duplicate => verdict matches Err(CatalogError::DuplicateEntry(path))
                && path@ == with_slashes(entry.enclosed_name->0@),
            EntryVerdict::Skip => verdict matches Ok(None),
            EntryVerdict::TooLarge => verdict matches Err(CatalogError::TooLarge),
            EntryVerdict::Candidate { name } => verdict matches Ok(Some(taken)) && taken@ == name,
        },
        verdict is Ok ==> views(final(seen)@) == views(old(seen)@).push(entry_key(*entry)),
{
    match &entry.enclosed_name {
        None => {
            let raw = chars_of(&entry.raw_name);
            Err(CatalogError::UnsafePath(text_of(&replace_char(&raw, '\\', '/'))))
        },
        Some(name) => {
            let name_chars = chars_of(name);
            let path = replace_char(&name_chars, '\\', '/');
            let path_text = text_of(&path);
            let folded = fold_text(&path_text);
            if holds_name(seen, &folded) {
                return Err(CatalogError::DuplicateEntry(path_text));
            }
            let ghost before = views(seen@);
            seen.push(folded);
            proof {
                assert(views(seen@) =~= before.push(entry_key(*entry)));
            }
            let parts = keep_solid(split(&path, '/'));
            proof {
                assert(views(parts@) == path_parts(path@));
                assert(forall|i: int| 0 <= i < parts.len() ==> views(parts@)[i] == #[trigger] parts@[i]@);
            }
            if parts.len() != 3 || !is_folded(&parts[0], "bin") || !is_folded(&parts[1], "x64")
                || !ends_folded(&parts[2], ".dll") || is_folded(&parts[2], "nvlowlatencyvk.dll") {
                return Ok(None);
            }
            if entry.size > MAX_DLL_BYTES {
                return Err(CatalogError::TooLarge);
            }
            Ok(Some(text_of(&parts[2])))
        },
    }
}

/// A path that leaves the archive's directory, and a name that occurred before
/// whatever the case of its letters, spoil the archive even where nothing would
/// be taken out.
pub proof fn bad_paths_are_never_skipped(seen: Seq<Seq<char>>, entry: EntryFacts)
    ensures
        entry.enclosed_name is None ==> entry_verdict(seen, entry) is Unsafe,
        entry.enclosed_name is Some && seen.contains(entry_key(entry)) ==> entry_verdict(
            seen,
            entry,
        ) is Duplicate,
{
}

/// Whether `part` stands in `path` from `start` on, holds no slash, and ends
/// before a slash or, if it may, with the path.
pub open spec fn is_part_at(path: Seq<char>, start: int, part: Seq<char>, may_end: bool) -> bool {
    let end = start + part.len();
    &&& end <= path.len()
    &&& part == path.subrange(start, end)
    &&& !part.contains('/')
    &&& if end == path.len() {
        may_end
    } else {
        path[end] == '/'
    }
}

proof fn parts_and_their_starts(path: Seq<char>) -> (starts: Seq<int>)
    ensures
        picks(
            starts,
            path.len() as int,
            |i: int| path[i] != '/' && (i == 0 || path[i - 1] == '/'),
        ),
        path_parts(path).len() == starts.len(),
        path.len() > 0 && path.last() != '/' ==> starts.len() > 0 && path_parts(path).last()
            == split_at_each(path, '/').last() && starts.last() + path_parts(path).last().len()
            == path.len(),
        forall|k: int|
            0 <= k < starts.len() ==> is_part_at(
                path,
                starts[k],
                #[trigger] path_parts(path)[k],
                k == starts.len() - 1 && path.len() > 0 && path.last() != '/',
            ),
    decreases path.len(),
{
    let here = |i: int| path[i] != '/' && (i == 0 || path[i - 1] == '/');
    let parts = path_parts(path);
    if path.len() == 0 {
        picks_nothing(here);
        assert(split_at_each(path, '/').drop_last() =~= Seq::<Seq<char>>::empty());
        assert(split_at_each(path, '/').last().len() == 0);
        assert(solid(split_at_each(path, '/').drop_last()).len() == 0);
        Seq::empty()
    } else {
        let shorter = path.drop_last();
        let last = path.len() - 1;
        let then = |i: int| shorter[i] != '/' && (i == 0 || shorter[i - 1] == '/');
        let before = parts_and_their_starts(shorter);
        let earlier = path_parts(shorter);
        let split = split_at_each(shorter, '/');
        last_part_of_a_split(shorter, '/');
        assert(forall|at: int| 0 <= at < last ==> #[trigger] here(at) == then(at));
        let starts = picks_grow(before, last, then, here);
        let open = split.last().len() > 0;
        assert(open <==> shorter.len() > 0 && shorter.last() != '/');
        if path[last] == '/' {
            assert(split_at_each(path, '/').drop_last() =~= split);
            assert(parts == earlier);
            assert forall|k: int| 0 <= k < starts.len() implies is_part_at(
                path,
                starts[k],
                #[trigger] parts[k],
                k == starts.len() - 1 && path.last() != '/',
            ) by {
                let end = before[k] + earlier[k].len();
                assert(is_part_at(
                    shorter,
                    before[k],
                    earlier[k],
                    k == before.len() - 1 && shorter.len() > 0 && shorter.last() != '/',
                ));
                assert(path.subrange(before[k], end) =~= shorter.subrange(before[k], end));
            }
        } else {
            let grown = split.last().push(path[last]);
            assert(split_at_each(path, '/').drop_last() =~= split.drop_last());
            assert(split_at_each(path, '/').last() == grown);
            assert(parts == solid(split.drop_last()).push(grown));
            assert(here(last) == !open);
            assert forall|k: int| 0 <= k < starts.len() implies is_part_at(
                path,
                starts[k],
                #[trigger] parts[k],
                k == starts.len() - 1 && path.last() != '/',
            ) by {
                if k < parts.len() - 1 {
                    assert(parts[k] == earlier[k]);
                    let end = before[k] + earlier[k].len();
                    assert(is_part_at(
                        shorter,
                        before[k],
                        earlier[k],
                        k == before.len() - 1 && shorter.len() > 0 && shorter.last() != '/',
                    ));
                    assert(path.subrange(before[k], end) =~= shorter.subrange(before[k], end));
                } else if !open {
                    assert(split.last() =~= Seq::<char>::empty());
                    assert(grown =~= path.subrange(last, last + 1));
                } else {
                    let part = earlier[k];
                    assert(part == split.last());
                    assert(is_part_at(shorter, before[k], part, true));
                    assert(grown =~= path.subrange(before[k], path.len() as int));
                    if grown.contains('/') {
                        let i = choose|i: int| 0 <= i < grown.len() && grown[i] == '/';
                        assert(part[i] == '/');
                    }
                }
            }
        }
        starts
    }
}

/// The parts of a path are what lies between its slashes, as far as it is not
/// empty: a part starts at each character that is no slash and has one or
/// nothing before it, and ends before the next slash or with the path.
pub proof fn path_parts_lie_between_slashes(path: Seq<char>) -> (starts: Seq<int>)
    ensures
        picks(
            starts,
            path.len() as int,
            |i: int| path[i] != '/' && (i == 0 || path[i - 1] == '/'),
        ),
        path_parts(path).len() == starts.len(),
        forall|k: int|
            0 <= k < starts.len() ==> is_part_at(path, starts[k], #[trigger] path_parts(path)[k], true),
{
    let starts = parts_and_their_starts(path);
    assert forall|k: int| 0 <= k < starts.len() implies is_part_at(
        path,
        starts[k],
        #[trigger] path_parts(path)[k],
        true,
    ) by {
        assert(is_part_at(
            path,
            starts[k],
            path_parts(path)[k],
            k == starts.len() - 1 && path.len() > 0 && path.last() != '/',
        ));
    }
    starts
}

/// An entry with a safe name that was not there before is taken out exactly
/// where its path has three parts, `bin`, `x64` and a name that stops in `.dll`
/// and is not that of the Vulkan low latency layer, all of them in any case of
/// letters, and it is not too large; it is taken out under that name. A larger
/// one spoils the archive, and any other entry is left alone.
pub proof fn every_production_dll_is_taken_out(seen: Seq<Seq<char>>, entry: EntryFacts) -> (found: (
    Seq<int>,
    Seq<Seq<char>>,
))
    requires
        entry.enclosed_name is Some,
        !seen.contains(
            ascii_folded(
                Seq::new(
                    entry.enclosed_name->0@.len(),
                    |i: int|
                        if entry.enclosed_name->0@[i] == '\\' {
                            '/'
                        } else {
                            entry.enclosed_name->0@[i]
                        },
                ),
            ),
        ),
    ensures
        ({
            let name = entry.enclosed_name->0@;
            let path = Seq::new(
                name.len(),
                |i: int|
                    if name[i] == '\\' {
                        '/'
                    } else {
                        name[i]
                    },
            );
            let (starts, parts) = found;
            let wanted = parts.len() == 3 && spells(parts[0], "bin"@) && spells(parts[1], "x64"@)
                && parts[2].len() >= 4 && spells(parts[2].skip(parts[2].len() - 4), ".dll"@)
                && !spells(parts[2], "nvlowlatencyvk.dll"@);
            &&& picks(
                starts,
                path.len() as int,
                |i: int| path[i] != '/' && (i == 0 || path[i - 1] == '/'),
            )
            &&& parts.len() == starts.len()
            &&& forall|k: int|
                0 <= k < starts.len() ==> is_part_at(path, starts[k], #[trigger] parts[k], true)
            &&& entry_verdict(seen, entry) is Candidate <==> wanted && entry.size <= 268435456
            &&& entry_verdict(seen, entry) is Candidate ==> entry_verdict(seen, entry)->name
                == parts[2]
            &&& entry_verdict(seen, entry) is TooLarge <==> wanted && entry.size > 268435456
            &&& entry_verdict(seen, entry) is Skip <==> !wanted
        }),
{
    let name = entry.enclosed_name->0@;
    let path = Seq::new(
        name.len(),
        |i: int|
            if name[i] == '\\' {
                '/'
            } else {
                name[i]
            },
    );
    assert(path =~= with_slashes(name));
    let starts = path_parts_lie_between_slashes(path);
    let parts = path_parts(path);
    reveal_strlit("bin");
    reveal_strlit("x64");
    reveal_strlit(".dll");
    reveal_strlit("nvlowlatencyvk.dll");
    if parts.len() == 3 {
        folded_words_are_spelled(parts[0], "bin"@);
        folded_words_are_spelled(parts[1], "x64"@);
        folded_words_are_spelled(parts[2], "nvlowlatencyvk.dll"@);
        if parts[2].len() >= 4 {
            let tail = parts[2].skip(parts[2].len() - 4);
            folded_words_are_spelled(tail, ".dll"@);
            assert(ascii_folded(parts[2]).subrange(
                ascii_folded(parts[2]).len() - 4,
                ascii_folded(parts[2]).len() as int,
            ) =~= ascii_folded(tail));
        }
    }
    (starts, parts)
}

/// How many bytes of a DLL have been unpacked after another chunk. The limit
/// holds whatever size the archive announced.
pub fn count_unpacked(written: u64, chunk: usize) -> (total: Result<u64, CatalogError>)
    ensures
        written + chunk > MAX_DLL_BYTES ==> total == Err::<u64, CatalogError>(
            CatalogError::TooLarge,
        ),
        written + chunk <= MAX_DLL_BYTES ==> total == Ok::<u64, CatalogError>(
            (written + chunk) as u64,
        ),
{
    if written > MAX_DLL_BYTES || chunk as u64 > MAX_DLL_BYTES - written {
        return Err(CatalogError::TooLarge);
    }
    Ok(written + chunk as u64)
}

/// Whether the signature of a candidate is good enough: trusted, and by NVIDIA.
pub open spec fn is_acceptable(report: TrustReport) -> bool {
    report.signature == SignatureStatus::Trusted && nvidia_signature(report.signer)
}

/// The name of a signature status.
pub open spec fn signature_name(status: SignatureStatus) -> Seq<char> {
    match status {
        SignatureStatus::Trusted => "Trusted"@,
        SignatureStatus::Untrusted => "Untrusted"@,
        SignatureStatus::Unsigned => "Unsigned"@,
        SignatureStatus::Unavailable => "Unavailable"@,
    }
}

/// The character of a hexadecimal digit, in upper case.
pub open spec fn upper_hex_digit(value: int) -> char {
    if value < 10 {
        ('0' as int + value) as char
    } else {
        ('A' as int + value - 10) as char
    }
}

/// A number in hexadecimal notation with the given number of digits.
pub open spec fn upper_hex(value: nat, digits: nat) -> Seq<char>
    decreases digits,
{
    if digits == 0 {
        Seq::empty()
    } else {
        upper_hex(value / 16, (digits - 1) as nat).push(upper_hex_digit(value as int % 16))
    }
}

/// The bits of a status code as an unsigned number.
pub open spec fn status_bits(status: i32) -> nat {
    if status < 0 {
        (status + 0x1_0000_0000) as nat
    } else {
        status as nat
    }
}

/// Why a candidate was rejected.
pub open spec fn rejection_text(name: Seq<char>, report: TrustReport) -> Seq<char> {
    let signer = match report.signer {
        Some(signer) => signer@,
        None => "unknown"@,
    };
    let native = match report.native_failure {
        Some(failure) => "0x"@ + upper_hex(status_bits(failure.status), 8) + (": "@
            + failure.reason@),
        None => "no native status"@,
    };
    name + ": signature="@ + signature_name(report.signature) + ", signer="@ + signer + ", "@
        + native
}

fn push_upper_hex(text: &mut String, value: u32, digits: u32)
    ensures
        final(text)@ == old(text)@ + upper_hex(value as nat, digits as nat),
    decreases digits,
{
    if digits > 0 {
        push_upper_hex(text, value / 16, digits - 1);
        let low: u8 = (value % 16) as u8;
        let ghost before = text@;
        if low < 10 {
            text.push((48 + low) as char);
        } else {
            text.push((55 + low) as char);
        }
        proof {
            assert(text@ =~= old(text)@ + upper_hex(value as nat, digits as nat));
        }
    } else {
        proof {
            assert(text@ =~= old(text)@ + upper_hex(value as nat, digits as nat));
        }
    }
}

fn rejection(name: &str, report: &TrustReport) -> (text: String)
    ensures
        text@ == rejection_text(name@, *report),
{
    let mut text = name.to_owned();
    text.append(": signature=");
    match report.signature {
        SignatureStatus::Trusted => text.append("Trusted"),
        SignatureStatus::Untrusted => text.append("Untrusted"),
        SignatureStatus::Unsigned => text.append("Unsigned"),
        SignatureStatus::Unavailable => text.append("Unavailable"),
    }
    text.append(", signer=");
    match &report.signer {
        Some(signer) => text.append(signer),
        None => text.append("unknown"),
    }
    text.append(", ");
    match &report.native_failure {
        Some(failure) => {
            let bits: u32 = if failure.status < 0 {
                (failure.status as i64 + 0x1_0000_0000) as u32
            } else {
                failure.status as u32
            };
            let ghost before = text@;
            text.append("0x");
            push_upper_hex(&mut text, bits, 8);
            text.append(": ");
            text.append(&failure.reason);
            proof {
                assert(text@ =~= before + ("0x"@ + upper_hex(status_bits(failure.status), 8) + (
                ": "@ + failure.reason@)));
            }
        },
        None => text.append("no native status"),
    }
    text
}

/// What has been found in an archive so far.
#[derive(Debug, PartialEq, Eq)]
pub struct Extraction {
    pub release: ReleaseId,
    pub archive: FilePath,
    /// Where the DLLs are unpacked to.
    pub destination: FilePath,
    pub entries: usize,
    pub seen: Vec<Vec<char>>,
    pub dlls: Vec<CatalogDll>,
    pub rejections: Vec<String>,
    /// Whether a DLL was accepted although revocation could not be checked.
    pub fallback: bool,
}

/// How far an extraction has come.
#[derive(Debug, PartialEq, Eq)]
pub enum ExtractStage {
    Measuring,
    Opening,
    CreatingDirectory,
    Reading { index: usize },
    Unpacking { index: usize, name: String },
    Inspecting { index: usize, name: String, sha256: [u8; 32] },
    Verifying { index: usize, name: String, sha256: [u8; 32], found: Option<DllVersion> },
    /// The signature is not good enough; the archive may hold other DLLs.
    Discarding { index: usize, name: String },
    /// The DLL spoils the archive.
    Refusing { name: String },
    LookingUp { index: usize, name: String, sha256: [u8; 32], version: DllVersion },
    RemovingOld { index: usize, name: String, sha256: [u8; 32], version: DllVersion },
    Renaming { index: usize, name: String, sha256: [u8; 32], version: DllVersion },
    Ended { outcome: Result<ValidatedRelease, CatalogError> },
}

/// What an extraction asks for next.
#[derive(Debug, PartialEq, Eq)]
pub enum ExtractAction {
    File(FileAction),
    /// Open the archive and count its entries; answered by
    /// [`ExtractReply::Opened`].
    Open,
    /// Describe an entry; answered by [`ExtractReply::Entry`].
    Describe { index: usize },
    /// Unpack an entry to a new file and compute its digest; answered by
    /// [`ExtractReply::Unpacked`].
    Unpack { index: usize, to: FilePath },
    /// Nothing: the extraction has ended.
    Rest,
}

/// What came of it.
#[derive(Debug, PartialEq, Eq)]
pub enum ExtractReply {
    File(FileReply),
    Opened(Result<usize, CatalogError>),
    Entry(Result<EntryFacts, CatalogError>),
    Unpacked(Result<[u8; 32], CatalogError>),
}

/// Where a DLL is unpacked to before it is checked. The name keeps its last
/// extension, by which the platform picks how to verify a signature.
pub open spec fn temporary_of(destination: Seq<char>, name: Seq<char>) -> Seq<char> {
    joined(destination, ".partial-"@ + name)
}

/// Whether `action` is the one that belongs to `stage`.
pub open spec fn extract_asks(
    work: Extraction,
    stage: ExtractStage,
    action: ExtractAction,
) -> bool {
    let directory = work.destination@;
    match stage {
        ExtractStage::Measuring => action == ExtractAction::File(
            FileAction::Measure { path: work.archive },
        ),
        ExtractStage::Opening => action == ExtractAction::Open,
        ExtractStage::CreatingDirectory => action == ExtractAction::File(
            FileAction::CreateDirectory { path: work.destination },
        ),
        ExtractStage::Reading { index } => action == (ExtractAction::Describe { index }),
        ExtractStage::Unpacking { index, name } => action matches ExtractAction::Unpack {
            index: at,
            to,
        } && at == index && to@ == temporary_of(directory, name@),
        ExtractStage::Inspecting { index: _, name, sha256: _ } => action matches ExtractAction::File(
            FileAction::Inspect { path },
        ) && path@ == temporary_of(directory, name@),
        ExtractStage::Verifying { index: _, name, sha256: _, found: _ } => {
            action matches ExtractAction::File(FileAction::Verify { path, policy }) && path@
                == temporary_of(directory, name@) && policy == TrustPolicy::OfficialNvidiaCatalog
        },
        ExtractStage::Discarding { index: _, name } => action matches ExtractAction::File(
            FileAction::Remove { path },
        ) && path@ == temporary_of(directory, name@),
        ExtractStage::Refusing { name } => action matches ExtractAction::File(
            FileAction::Remove { path },
        ) && path@ == temporary_of(directory, name@),
        ExtractStage::LookingUp { index: _, name, sha256: _, version: _ } => {
            action matches ExtractAction::File(FileAction::Look { path }) && path@ == joined(
                directory,
                name@,
            )
        },
        ExtractStage::RemovingOld { index: _, name, sha256: _, version: _ } => {
            action matches ExtractAction::File(FileAction::Remove { path }) && path@ == joined(
                directory,
                name@,
            )
        },
        ExtractStage::Renaming { index: _, name, sha256: _, version: _ } => {
            action matches ExtractAction::File(FileAction::Rename { from, to }) && from@
                == temporary_of(directory, name@) && to@ == joined(directory, name@)
        },
        ExtractStage::Ended { outcome: _ } => action == ExtractAction::Rest,
    }
}

/// The error of the archive that an error of the file system makes.
pub open spec fn is_file_error(error: CoreError, told: CatalogError) -> bool {
    match error {
        CoreError::Io { permission_denied, message } => told == (CatalogError::Io {
            permission_denied,
            message,
        }),
        _ => told matches CatalogError::Io { permission_denied, message } && permission_denied
            == crate::traits::lacks_privileges(error) && message@ == error_text(error),
    }
}

/// Whether an extraction has failed.
pub open spec fn extract_failed(stage: ExtractStage, error: CatalogError) -> bool {
    stage == (ExtractStage::Ended { outcome: Err(error) })
}

/// Whether an extraction has failed because of `error` of the file system.
pub open spec fn extract_broke(stage: ExtractStage, error: CoreError) -> bool {
    stage matches ExtractStage::Ended { outcome: Err(told) } && is_file_error(error, told)
}

/// Whether two records of what was found agree.
pub open spec fn same_findings(left: Extraction, right: Extraction) -> bool {
    &&& left.release == right.release
    &&& left.archive == right.archive
    &&& left.destination == right.destination
    &&& left.entries == right.entries
    &&& views(left.seen@) == views(right.seen@)
    &&& left.dlls@ == right.dlls@
    &&& text_views(left.rejections@) == text_views(right.rejections@)
    &&& left.fallback == right.fallback
}

/// Whether `stage` is where an extraction goes on with entry number `index`, or
/// how it ends when there is none left.
pub open spec fn goes_on_at(work: Extraction, index: int, stage: ExtractStage) -> bool {
    if index < work.entries {
        stage matches ExtractStage::Reading { index: at } && at == index
    } else if work.dlls.len() == 0 {
        if work.rejections.len() == 0 {
            extract_failed(stage, CatalogError::NoProductionDlls)
        } else {
            stage matches ExtractStage::Ended {
                outcome: Err(CatalogError::RejectedCandidates(reasons)),
            } && reasons@ == joined_with(text_views(work.rejections@), "; "@)
        }
    } else {
        &&& stage matches ExtractStage::Ended { outcome: Ok(found) }
        &&& found.dlls@ == work.dlls@
        &&& found.validation == if work.fallback {
            ReleaseValidation::RevocationUnavailableFallback
        } else {
            ReleaseValidation::Full
        }
    }
}

/// Whether `dll` is the DLL that was taken out as `name`.
pub open spec fn is_taken_out(
    work: Extraction,
    name: Seq<char>,
    sha256: [u8; 32],
    version: DllVersion,
    dll: CatalogDll,
) -> bool {
    &&& dll.file_name matches FileName::Unicode(text) && text@ == name
    &&& dll.version == version
    &&& dll.sha256 == sha256
    &&& dll.source@ == joined(work.destination@, name)
    &&& dll.release == work.release
}

/// What the signature of a candidate leads to.
pub open spec fn after_candidate_check(
    work: Extraction,
    index: usize,
    name: String,
    sha256: [u8; 32],
    version: Option<DllVersion>,
    report: TrustReport,
    after: Extraction,
    next: ExtractStage,
) -> bool {
    if is_acceptable(report) {
        &&& same_findings(
            after,
            Extraction {
                fallback: work.fallback || report.revocation
                    == RevocationStatus::UnavailableFallback,
                ..work
            },
        )
        &&& match version {
            None => next == (ExtractStage::Refusing { name }),
            Some(version) => next == (ExtractStage::LookingUp { index, name, sha256, version }),
        }
    } else {
        &&& after.release == work.release && after.archive == work.archive && after.destination
            == work.destination && after.entries == work.entries && views(after.seen@) == views(
            work.seen@,
        ) && after.dlls@ == work.dlls@ && after.fallback == work.fallback
        &&& text_views(after.rejections@) == text_views(work.rejections@).push(
            rejection_text(name@, report),
        )
        &&& next == (ExtractStage::Discarding { index, name })
    }
}

/// Whether `after` and `next` are what `reply` leads to. A reply that answers
/// some other action changes nothing.
pub open spec fn extract_follows(
    work: Extraction,
    stage: ExtractStage,
    reply: ExtractReply,
    after: Extraction,
    next: ExtractStage,
) -> bool {
    match (stage, reply) {
        (ExtractStage::Measuring, ExtractReply::File(FileReply::Measured(result))) => {
            &&& same_findings(after, work)
            &&& match result {
                Err(error) => extract_broke(next, error),
                Ok(size) => if size > MAX_ARCHIVE_BYTES {
                    extract_failed(next, CatalogError::TooLarge)
                } else {
                    next == ExtractStage::Opening
                },
            }
        },
        (ExtractStage::Opening, ExtractReply::Opened(result)) => match result {
            Err(error) => same_findings(after, work) && extract_failed(next, error),
            Ok(entries) => if entries > MAX_ENTRIES {
                same_findings(after, work) && extract_failed(next, CatalogError::TooManyEntries)
            } else {
                &&& same_findings(after, Extraction { entries, ..work })
                &&& next == ExtractStage::CreatingDirectory
            },
        },
        (ExtractStage::CreatingDirectory, ExtractReply::File(FileReply::Done(result))) => {
            &&& same_findings(after, work)
            &&& match result {
                Err(error) => extract_broke(next, error),
                Ok(_) => goes_on_at(work, 0, next),
            }
        },
        (ExtractStage::Reading { index }, ExtractReply::Entry(result)) => match result {
            Err(error) => same_findings(after, work) && extract_failed(next, error),
            Ok(entry) => match entry_verdict(views(work.seen@), entry) {
                EntryVerdict::Unsafe => {
                    &&& same_but_names(work, after)
                    &&& next matches ExtractStage::Ended {
                        outcome: Err(CatalogError::UnsafePath(path)),
                    }
                    &&& path@ == with_slashes(entry.raw_name@)
                },
                EntryVerdict::Duplicate => {
                    &&& same_but_names(work, after)
                    &&& next matches ExtractStage::Ended {
                        outcome: Err(CatalogError::DuplicateEntry(path)),
                    }
                    &&& path@ == with_slashes(entry.enclosed_name->0@)
                },
                EntryVerdict::TooLarge => same_but_names(work, after) && extract_failed(
                    next,
                    CatalogError::TooLarge,
                ),
                EntryVerdict::Skip => noted(work, entry, after) && goes_on_at(
                    work,
                    index + 1,
                    next,
                ),
                EntryVerdict::Candidate { name } => {
                    &&& noted(work, entry, after)
                    &&& next matches ExtractStage::Unpacking { index: at, name: taken }
                    &&& at == index
                    &&& taken@ == name
                },
            },
        },
        (ExtractStage::Unpacking { index, name }, ExtractReply::Unpacked(result)) => {
            &&& same_findings(after, work)
            &&& match result {
                Err(error) => extract_failed(next, error),
                Ok(sha256) => next == (ExtractStage::Inspecting { index, name, sha256 }),
            }
        },
        (
            ExtractStage::Inspecting { index, name, sha256 },
            ExtractReply::File(FileReply::Inspected(result)),
        ) => {
            &&& same_findings(after, work)
            &&& match result {
                Err(error) => inspection_failed(next, name, error),
                Ok(metadata) => if !metadata.x86_64 {
                    next == (ExtractStage::Refusing { name })
                } else {
                    next == (ExtractStage::Verifying {
                        index,
                        name,
                        sha256,
                        found: metadata.version,
                    })
                },
            }
        },
        (
            ExtractStage::Verifying { index, name, sha256, found },
            ExtractReply::File(FileReply::Verified(result)),
        ) => match result {
            Err(error) => same_findings(after, work) && inspection_failed(next, name, error),
            Ok(report) => after_candidate_check(
                work,
                index,
                name,
                sha256,
                found,
                report,
                after,
                next,
            ),
        },
        (
            ExtractStage::Discarding { index, name: _ },
            ExtractReply::File(FileReply::Done(_)),
        ) => same_findings(after, work) && goes_on_at(work, index + 1, next),
        (ExtractStage::Refusing { name }, ExtractReply::File(FileReply::Done(_))) => {
            same_findings(after, work) && extract_failed(next, CatalogError::InvalidPe(name))
        },
        (
            ExtractStage::LookingUp { index, name, sha256, version },
            ExtractReply::File(FileReply::Found(found)),
        ) => {
            &&& same_findings(after, work)
            &&& next == if found {
                ExtractStage::RemovingOld { index, name, sha256, version }
            } else {
                ExtractStage::Renaming { index, name, sha256, version }
            }
        },
        (
            ExtractStage::RemovingOld { index, name, sha256, version },
            ExtractReply::File(FileReply::Done(result)),
        ) => {
            &&& same_findings(after, work)
            &&& match result {
                Err(error) => extract_broke(next, error),
                Ok(_) => next == (ExtractStage::Renaming { index, name, sha256, version }),
            }
        },
        (
            ExtractStage::Renaming { index, name, sha256, version },
            ExtractReply::File(FileReply::Done(result)),
        ) => match result {
            Err(error) => same_findings(after, work) && extract_broke(next, error),
            Ok(_) => {
                &&& after.release == work.release && after.archive == work.archive
                    && after.destination == work.destination && after.entries == work.entries
                    && views(after.seen@) == views(work.seen@) && text_views(after.rejections@)
                    == text_views(work.rejections@) && after.fallback == work.fallback
                &&& after.dlls.len() == work.dlls.len() + 1
                &&& after.dlls@.drop_last() == work.dlls@
                &&& is_taken_out(work, name@, sha256, version, after.dlls@.last())
                &&& goes_on_at(after, index + 1, next)
            },
        },
        _ => same_findings(after, work) && next == stage,
    }
}

/// Whether nothing changed but the names that were noted.
pub open spec fn same_but_names(work: Extraction, after: Extraction) -> bool {
    &&& after.release == work.release
    &&& after.archive == work.archive
    &&& after.destination == work.destination
    &&& after.entries == work.entries
    &&& after.dlls@ == work.dlls@
    &&& text_views(after.rejections@) == text_views(work.rejections@)
    &&& after.fallback == work.fallback
}

/// Whether the name of an entry was noted, and nothing else.
pub open spec fn noted(work: Extraction, entry: EntryFacts, after: Extraction) -> bool {
    same_but_names(work, after) && views(after.seen@) == views(work.seen@).push(entry_key(entry))
}

/// Whether an extraction has failed because a DLL could not be examined.
pub open spec fn inspection_failed(stage: ExtractStage, name: String, error: CoreError) -> bool {
    stage matches ExtractStage::Ended { outcome: Err(CatalogError::Inspection(which, reason)) }
        && which == name && reason@ == error_text(error)
}

/// The error of the archive that an error of the file system makes.
pub fn file_error(error: CoreError) -> (told: CatalogError)
    ensures
        is_file_error(error, told),
{
    match error {
        CoreError::Io { permission_denied, message } => CatalogError::Io {
            permission_denied,
            message,
        },
        other => {
            let permission_denied = other.is_permission_denied();
            CatalogError::Io { permission_denied, message: other.to_text() }
        },
    }
}

impl Extraction {
    /// The extraction of the DLLs of `release` from `archive` to `destination`.
    pub fn new(release: ReleaseId, archive: FilePath, destination: FilePath) -> (work: Extraction)
        ensures
            work.release == release,
            work.archive == archive,
            work.destination == destination,
            work.entries == 0,
            work.seen.len() == 0,
            work.dlls.len() == 0,
            work.rejections.len() == 0,
            !work.fallback,
    {
        Extraction {
            release,
            archive,
            destination,
            entries: 0,
            seen: Vec::new(),
            dlls: Vec::new(),
            rejections: Vec::new(),
            fallback: false,
        }
    }

    fn temporary(&self, name: &str) -> (path: FilePath)
        ensures
            path@ == temporary_of(self.destination@, name@),
    {
        let file = join_two(".partial-", name);
        self.destination.join(&file)
    }

    /// What an extraction asks for next.
    pub fn action(&self, stage: &ExtractStage) -> (action: ExtractAction)
        ensures
            extract_asks(*self, *stage, action),
    {
        match stage {
            ExtractStage::Measuring => ExtractAction::File(
                FileAction::Measure { path: self.archive.clone() },
            ),
            ExtractStage::Opening => ExtractAction::Open,
            ExtractStage::CreatingDirectory => ExtractAction::File(
                FileAction::CreateDirectory { path: self.destination.clone() },
            ),
            ExtractStage::Reading { index } => ExtractAction::Describe { index: *index },
            ExtractStage::Unpacking { index, name } => ExtractAction::Unpack {
                index: *index,
                to: self.temporary(name),
            },
            ExtractStage::Inspecting { index: _, name, sha256: _ } => ExtractAction::File(
                FileAction::Inspect { path: self.temporary(name) },
            ),
            ExtractStage::Verifying { index: _, name, sha256: _, found: _ } => {
                ExtractAction::File(
                    FileAction::Verify {
                        path: self.temporary(name),
                        policy: TrustPolicy::OfficialNvidiaCatalog,
                    },
                )
            },
            ExtractStage::Discarding { index: _, name } => ExtractAction::File(
                FileAction::Remove { path: self.temporary(name) },
            ),
            ExtractStage::Refusing { name } => ExtractAction::File(
                FileAction::Remove { path: self.temporary(name) },
            ),
            ExtractStage::LookingUp { index: _, name, sha256: _, version: _ } => {
                ExtractAction::File(FileAction::Look { path: self.destination.join(name) })
            },
            ExtractStage::RemovingOld { index: _, name, sha256: _, version: _ } => {
                ExtractAction::File(FileAction::Remove { path: self.destination.join(name) })
            },
            ExtractStage::Renaming { index: _, name, sha256: _, version: _ } => {
                ExtractAction::File(
                    FileAction::Rename {
                        from: self.temporary(name),
                        to: self.destination.join(name),
                    },
                )
            },
            ExtractStage::Ended { outcome: _ } => ExtractAction::Rest,
        }
    }

    fn go_on(&self, index: usize) -> (stage: ExtractStage)
        ensures
            goes_on_at(*self, index as int, stage),
    {
        if index < self.entries {
            return ExtractStage::Reading { index };
        }
        if self.dlls.len() == 0 {
            if self.rejections.len() == 0 {
                return ExtractStage::Ended { outcome: Err(CatalogError::NoProductionDlls) };
            }
            let reasons = join_texts(&self.rejections, "; ");
            return ExtractStage::Ended {
                outcome: Err(CatalogError::RejectedCandidates(reasons)),
            };
        }
        let dlls = self.dlls.clone();
        proof {
            assert(dlls@ =~= self.dlls@);
        }
        let validation = if self.fallback {
            ReleaseValidation::RevocationUnavailableFallback
        } else {
            ReleaseValidation::Full
        };
        ExtractStage::Ended { outcome: Ok(ValidatedRelease { dlls, validation }) }
    }

    fn go_past(&self, index: usize) -> (stage: ExtractStage)
        ensures
            goes_on_at(*self, index + 1, stage),
    {
        if index < self.entries {
            self.go_on(index + 1)
        } else {
            self.go_on(self.entries)
        }
    }

    fn read_entry(&mut self, index: usize, entry: EntryFacts) -> (next: ExtractStage)
        ensures
            extract_follows(
                *old(self),
                ExtractStage::Reading { index },
                ExtractReply::Entry(Ok(entry)),
                *final(self),
                next,
            ),
    {
        match admit_entry(&mut self.seen, &entry) {
            Err(error) => ExtractStage::Ended { outcome: Err(error) },
            Ok(None) => self.go_past(index),
            Ok(Some(name)) => ExtractStage::Unpacking { index, name },
        }
    }

    fn check_candidate(
        &mut self,
        index: usize,
        name: String,
        sha256: [u8; 32],
        version: Option<DllVersion>,
        report: TrustReport,
    ) -> (next: ExtractStage)
        ensures
            after_candidate_check(
                *old(self),
                index,
                name,
                sha256,
                version,
                report,
                *final(self),
                next,
            ),
    {
        if report.signature == SignatureStatus::Trusted && is_nvidia_signature(&report.signer) {
            if report.revocation == RevocationStatus::UnavailableFallback {
                self.fallback = true;
            }
            return match version {
                None => ExtractStage::Refusing { name },
                Some(version) => ExtractStage::LookingUp { index, name, sha256, version },
            };
        }
        let ghost before = text_views(self.rejections@);
        let reason = rejection(&name, &report);
        self.rejections.push(reason);
        proof {
            assert(text_views(self.rejections@) =~= before.push(rejection_text(name@, report)));
        }
        ExtractStage::Discarding { index, name }
    }

    fn take_out(
        &mut self,
        index: usize,
        name: String,
        sha256: [u8; 32],
        version: DllVersion,
    ) -> (next: ExtractStage)
        ensures
            extract_follows(
                *old(self),
                ExtractStage::Renaming { index, name, sha256, version },
                ExtractReply::File(FileReply::Done(Ok(()))),
                *final(self),
                next,
            ),
    {
        let source = self.destination.join(&name);
        let ghost before = self.dlls@;
        self.dlls.push(CatalogDll {
            file_name: FileName::Unicode(name),
            version,
            sha256,
            source,
            release: self.release.clone(),
        });
        proof {
            assert(self.dlls@.drop_last() =~= before);
        }
        self.go_past(index)
    }

    /// The stage that `reply` leads to.
    pub fn advance(&mut self, stage: ExtractStage, reply: ExtractReply) -> (next: ExtractStage)
        ensures
            extract_follows(*old(self), stage, reply, *final(self), next),
    {
        match (stage, reply) {
            (ExtractStage::Measuring, ExtractReply::File(FileReply::Measured(result))) => match result {
                Err(error) => ExtractStage::Ended { outcome: Err(file_error(error)) },
                Ok(size) => if size > MAX_ARCHIVE_BYTES {
                    ExtractStage::Ended { outcome: Err(CatalogError::TooLarge) }
                } else {
                    ExtractStage::Opening
                },
            },
            (ExtractStage::Opening, ExtractReply::Opened(result)) => match result {
                Err(error) => ExtractStage::Ended { outcome: Err(error) },
                Ok(entries) => if entries > MAX_ENTRIES {
                    ExtractStage::Ended { outcome: Err(CatalogError::TooManyEntries) }
                } else {
                    self.entries = entries;
                    ExtractStage::CreatingDirectory
                },
            },
            (ExtractStage::CreatingDirectory, ExtractReply::File(FileReply::Done(result))) => match result {
                Err(error) => ExtractStage::Ended { outcome: Err(file_error(error)) },
                Ok(_) => self.go_on(0),
            },
            (ExtractStage::Reading { index }, ExtractReply::Entry(result)) => match result {
                Err(error) => ExtractStage::Ended { outcome: Err(error) },
                Ok(entry) => self.read_entry(index, entry),
            },
            (ExtractStage::Unpacking { index, name }, ExtractReply::Unpacked(result)) => match result {
                Err(error) => ExtractStage::Ended { outcome: Err(error) },
                Ok(sha256) => ExtractStage::Inspecting { index, name, sha256 },
            },
            (
                ExtractStage::Inspecting { index, name, sha256 },
                ExtractReply::File(FileReply::Inspected(result)),
            ) => match result {
                Err(error) => ExtractStage::Ended {
                    outcome: Err(CatalogError::Inspection(name, error.to_text())),
                },
                Ok(metadata) => if !metadata.x86_64 {
                    ExtractStage::Refusing { name }
                } else {
                    ExtractStage::Verifying { index, name, sha256, found: metadata.version }
                },
            },
            (
                ExtractStage::Verifying { index, name, sha256, found },
                ExtractReply::File(FileReply::Verified(result)),
            ) => match result {
                Err(error) => ExtractStage::Ended {
                    outcome: Err(CatalogError::Inspection(name, error.to_text())),
                },
                Ok(report) => self.check_candidate(index, name, sha256, found, report),
            },
            (
                ExtractStage::Discarding { index, name: _ },
                ExtractReply::File(FileReply::Done(_)),
            ) => self.go_past(index),
            (ExtractStage::Refusing { name }, ExtractReply::File(FileReply::Done(_))) => {
                ExtractStage::Ended { outcome: Err(CatalogError::InvalidPe(name)) }
            },
            (
                ExtractStage::LookingUp { index, name, sha256, version },
                ExtractReply::File(FileReply::Found(found)),
            ) => if found {
                ExtractStage::RemovingOld { index, name, sha256, version }
            } else {
                ExtractStage::Renaming { index, name, sha256, version }
            },
            (
                ExtractStage::RemovingOld { index, name, sha256, version },
                ExtractReply::File(FileReply::Done(result)),
            ) => match result {
                Err(error) => ExtractStage::Ended { outcome: Err(file_error(error)) },
                Ok(_) => ExtractStage::Renaming { index, name, sha256, version },
            },
            (
                ExtractStage::Renaming { index, name, sha256, version },
                ExtractReply::File(FileReply::Done(result)),
            ) => match result {
                Err(error) => ExtractStage::Ended { outcome: Err(file_error(error)) },
                Ok(_) => self.take_out(index, name, sha256, version),
            },
            (stage, _) => stage,
        }
    }
}

/// A DLL is only unpacked if it is a production DLL within the limit, only
/// verified if it was unpacked and is an x86-64 DLL, only kept if its signature
/// is trusted and by NVIDIA and it has a version, and only listed once it has
/// its place.
pub proof fn only_checked_dlls_are_taken_out(
    work: Extraction,
    stage: ExtractStage,
    reply: ExtractReply,
    after: Extraction,
    next: ExtractStage,
)
    requires
        extract_follows(work, stage, reply, after, next),
        next != stage,
    ensures
        next matches ExtractStage::Unpacking { index, name } ==> stage == (ExtractStage::Reading {
            index,
        }) && (reply matches ExtractReply::Entry(Ok(entry)) && entry.enclosed_name is Some
            && is_production_dll(with_slashes(entry.enclosed_name->0@)) && name@ == path_parts(
            with_slashes(entry.enclosed_name->0@),
        )[2] && entry.size <= MAX_DLL_BYTES),
        next matches ExtractStage::Inspecting { index, name, sha256 } ==> stage
            == (ExtractStage::Unpacking { index, name }) && reply == ExtractReply::Unpacked(
            Ok(sha256),
        ),
        next matches ExtractStage::Verifying { index, name, sha256, found } ==> stage
            == (ExtractStage::Inspecting { index, name, sha256 }) && (reply
            matches ExtractReply::File(FileReply::Inspected(Ok(metadata))) && metadata.x86_64
            && metadata.version == found),
        next matches ExtractStage::LookingUp { index, name, sha256, version } ==> stage
            == (ExtractStage::Verifying { index, name, sha256, found: Some(version) }) && (reply
            matches ExtractReply::File(FileReply::Verified(Ok(report))) && is_acceptable(report)),
        after.dlls@ != work.dlls@ ==> (stage matches ExtractStage::Renaming {
            index: _,
            name,
            sha256,
            version,
        } && after.dlls@ == work.dlls@.push(after.dlls@.last()) && is_taken_out(
            work,
            name@,
            sha256,
            version,
            after.dlls@.last(),
        )),
{
    if after.dlls@ != work.dlls@ && after.dlls.len() > 0 && after.dlls@.drop_last() == work.dlls@ {
        assert(after.dlls@ =~= after.dlls@.drop_last().push(after.dlls@.last()));
    }
}

/// What an archive holds, entry by entry: how it describes the entry, and the
/// digest, the metadata and the signature of what is unpacked from it. The last
/// three only matter where the entry is unpacked.
pub struct ArchiveContent {
    pub entries: Seq<EntryFacts>,
    pub digests: Seq<[u8; 32]>,
    pub metadata: Seq<DllMetadata>,
    pub trust: Seq<TrustReport>,
}

/// A DLL that belongs to the outcome of an extraction.
pub struct AcceptedDll {
    pub name: Seq<char>,
    pub sha256: [u8; 32],
    pub version: DllVersion,
}

/// The names under which the first `count` entries are compared.
pub open spec fn first_keys(content: ArchiveContent, count: int) -> Seq<Seq<char>>
    decreases count,
{
    if count <= 0 {
        Seq::empty()
    } else {
        first_keys(content, count - 1).push(entry_key(content.entries[count - 1]))
    }
}

/// What is to be done with an entry, after those before it.
pub open spec fn verdict_at(content: ArchiveContent, index: int) -> EntryVerdict {
    entry_verdict(first_keys(content, index), content.entries[index])
}

/// Whether an entry spoils nothing: it is left alone, or it is an x86-64 DLL
/// that has a version unless its signature rules it out.
pub open spec fn is_harmless(content: ArchiveContent, index: int) -> bool {
    match verdict_at(content, index) {
        EntryVerdict::Skip => true,
        EntryVerdict::Candidate { name: _ } => content.metadata[index].x86_64 && (is_acceptable(
            content.trust[index],
        ) ==> content.metadata[index].version is Some),
        _ => false,
    }
}

/// Whether an entry is a production DLL with a good signature.
pub open spec fn is_accepted(content: ArchiveContent, index: int) -> bool {
    verdict_at(content, index) is Candidate && is_acceptable(content.trust[index])
}

/// The accepted production DLLs among the first `count` entries, in the order
/// of the archive.
pub open spec fn accepted_dlls(content: ArchiveContent, count: int) -> Seq<AcceptedDll>
    decreases count,
{
    if count <= 0 {
        Seq::empty()
    } else if is_accepted(content, count - 1) {
        accepted_dlls(content, count - 1).push(
            AcceptedDll {
                name: verdict_at(content, count - 1)->name,
                sha256: content.digests[count - 1],
                version: content.metadata[count - 1].version->0,
            },
        )
    } else {
        accepted_dlls(content, count - 1)
    }
}

/// Why production DLLs among the first `count` entries were rejected, in the
/// order of the archive.
pub open spec fn rejected_dlls(content: ArchiveContent, count: int) -> Seq<Seq<char>>
    decreases count,
{
    if count <= 0 {
        Seq::empty()
    } else {
        match verdict_at(content, count - 1) {
            EntryVerdict::Candidate { name } => if is_acceptable(content.trust[count - 1]) {
                rejected_dlls(content, count - 1)
            } else {
                rejected_dlls(content, count - 1).push(
                    rejection_text(name, content.trust[count - 1]),
                )
            },
            _ => rejected_dlls(content, count - 1),
        }
    }
}

/// Whether one of the first `count` entries was accepted although revocation
/// could not be checked.
pub open spec fn used_fallback(content: ArchiveContent, count: int) -> bool {
    exists|i: int|
        0 <= i < count && #[trigger] is_accepted(content, i) && content.trust[i].revocation
            == RevocationStatus::UnavailableFallback
}

/// Whether `dlls` are the DLLs `accepted`, in their order.
pub open spec fn lists_accepted(
    work: Extraction,
    accepted: Seq<AcceptedDll>,
    dlls: Seq<CatalogDll>,
) -> bool {
    &&& dlls.len() == accepted.len()
    &&& forall|i: int|
        0 <= i < dlls.len() ==> is_taken_out(
            work,
            accepted[i].name,
            accepted[i].sha256,
            accepted[i].version,
            #[trigger] dlls[i],
        )
}

/// Whether an error is one of reading the archive or of the file system.
pub open spec fn is_reading_error(error: CatalogError) -> bool {
    error is Io || error is Zip || error is TooLarge
}

/// Whether a reply tells what is in the archive, or that it cannot be read.
pub open spec fn tells_content(
    content: ArchiveContent,
    stage: ExtractStage,
    reply: ExtractReply,
) -> bool {
    match (stage, reply) {
        (ExtractStage::Opening, ExtractReply::Opened(result)) => match result {
            Ok(count) => count == content.entries.len(),
            Err(error) => is_reading_error(error),
        },
        (ExtractStage::Reading { index }, ExtractReply::Entry(result)) => match result {
            Ok(entry) => entry == content.entries[index as int],
            Err(error) => is_reading_error(error),
        },
        (ExtractStage::Unpacking { index, name: _ }, ExtractReply::Unpacked(result)) => {
            match result {
                Ok(sha256) => sha256 == content.digests[index as int],
                Err(error) => is_reading_error(error),
            }
        },
        (
            ExtractStage::Inspecting { index, name: _, sha256: _ },
            ExtractReply::File(FileReply::Inspected(Ok(metadata))),
        ) => metadata == content.metadata[index as int],
        (
            ExtractStage::Verifying { index, name: _, sha256: _, found: _ },
            ExtractReply::File(FileReply::Verified(Ok(report))),
        ) => report == content.trust[index as int],
        _ => true,
    }
}

/// Whether `works` and `stages` are what an extraction goes through as `replies`
/// come in that tell what is in the archive.
pub open spec fn is_extraction(
    content: ArchiveContent,
    replies: Seq<ExtractReply>,
    works: Seq<Extraction>,
    stages: Seq<ExtractStage>,
) -> bool {
    &&& stages.len() == replies.len() + 1
    &&& works.len() == replies.len() + 1
    &&& stages[0] == ExtractStage::Measuring
    &&& works[0].seen.len() == 0 && works[0].dlls.len() == 0 && works[0].rejections.len() == 0
        && !works[0].fallback
    &&& forall|i: int|
        #![trigger replies[i]]
        0 <= i < replies.len() ==> {
            &&& tells_content(content, stages[i], replies[i])
            &&& extract_follows(works[i], stages[i], replies[i], works[i + 1], stages[i + 1])
        }
}

/// Whether what was found is right after the first `count` entries, where the
/// names of `named` entries were noted.
pub open spec fn found_so_far(
    start: Extraction,
    content: ArchiveContent,
    count: int,
    named: int,
    work: Extraction,
) -> bool {
    &&& work.entries == content.entries.len()
    &&& 0 <= count <= work.entries
    &&& views(work.seen@) == first_keys(content, named)
    &&& lists_accepted(start, accepted_dlls(content, count), work.dlls@)
    &&& text_views(work.rejections@) == rejected_dlls(content, count)
    &&& work.fallback == used_fallback(content, count)
    &&& forall|i: int| 0 <= i < count ==> #[trigger] is_harmless(content, i)
}

/// Whether what was found is right at a stage.
pub open spec fn found_at(
    start: Extraction,
    content: ArchiveContent,
    work: Extraction,
    stage: ExtractStage,
) -> bool {
    &&& work.release == start.release
    &&& work.destination == start.destination
    &&& match stage {
        ExtractStage::Measuring | ExtractStage::Opening => work.seen.len() == 0 && work.dlls.len()
            == 0 && work.rejections.len() == 0 && !work.fallback,
        ExtractStage::CreatingDirectory => found_so_far(start, content, 0, 0, work),
        ExtractStage::Reading { index } => index < work.entries && found_so_far(
            start,
            content,
            index as int,
            index as int,
            work,
        ),
        ExtractStage::Unpacking { index, name } => is_candidate_at(content, index, name@)
            && found_so_far(start, content, index as int, index + 1, work),
        ExtractStage::Inspecting { index, name, sha256 } => is_candidate_at(content, index, name@)
            && sha256 == content.digests[index as int] && found_so_far(
            start,
            content,
            index as int,
            index + 1,
            work,
        ),
        ExtractStage::Verifying { index, name, sha256, found } => is_candidate_at(
            content,
            index,
            name@,
        ) && sha256 == content.digests[index as int] && content.metadata[index as int].x86_64
            && found == content.metadata[index as int].version && found_so_far(
            start,
            content,
            index as int,
            index + 1,
            work,
        ),
        ExtractStage::Discarding { index, name: _ } => index < work.entries && found_so_far(
            start,
            content,
            index + 1,
            index + 1,
            work,
        ),
        ExtractStage::Refusing { name } => is_spoiled_by(content, name@),
        ExtractStage::LookingUp { index, name, sha256, version } => is_good_at(
            start,
            content,
            work,
            index,
            name@,
            sha256,
            version,
        ),
        ExtractStage::RemovingOld { index, name, sha256, version } => is_good_at(
            start,
            content,
            work,
            index,
            name@,
            sha256,
            version,
        ),
        ExtractStage::Renaming { index, name, sha256, version } => is_good_at(
            start,
            content,
            work,
            index,
            name@,
            sha256,
            version,
        ),
        ExtractStage::Ended { outcome } => is_outcome_of(start, content, outcome),
    }
}

/// Whether an entry is a DLL to be unpacked as `name`.
pub open spec fn is_candidate_at(content: ArchiveContent, index: usize, name: Seq<char>) -> bool {
    index < content.entries.len() && verdict_at(content, index as int) == (
    EntryVerdict::Candidate { name })
}

/// Whether an entry is a DLL to be kept, and what was found before it is right.
pub open spec fn is_good_at(
    start: Extraction,
    content: ArchiveContent,
    work: Extraction,
    index: usize,
    name: Seq<char>,
    sha256: [u8; 32],
    version: DllVersion,
) -> bool {
    let at = index as int;
    &&& is_candidate_at(content, index, name)
    &&& sha256 == content.digests[at]
    &&& content.metadata[at].x86_64
    &&& content.metadata[at].version == Some(version)
    &&& is_acceptable(content.trust[at])
    &&& found_so_far(
        start,
        content,
        at,
        at + 1,
        Extraction { fallback: used_fallback(content, at), ..work },
    )
    &&& work.fallback == used_fallback(content, at + 1)
}

/// Whether an entry is reached: nothing before it spoils the archive.
pub open spec fn is_reached(content: ArchiveContent, index: int) -> bool {
    &&& 0 <= index < content.entries.len()
    &&& forall|i: int| 0 <= i < index ==> #[trigger] is_harmless(content, i)
}

/// Whether the first entry that spoils the archive is a production DLL of this
/// name.
pub open spec fn is_spoiled_by(content: ArchiveContent, name: Seq<char>) -> bool {
    exists|i: int| #[trigger]
        is_reached(content, i) && !is_harmless(content, i) && verdict_at(content, i) == (
        EntryVerdict::Candidate { name })
}

/// Whether no entry spoils the archive.
pub open spec fn is_sound(content: ArchiveContent) -> bool {
    forall|i: int| 0 <= i < content.entries.len() ==> #[trigger] is_harmless(content, i)
}

/// Whether an outcome is the right one for an archive. A success lists exactly
/// the accepted production DLLs, in the order of the archive, and no entry
/// spoils the archive. A failure that speaks of the content names the first
/// entry that spoils it, or says that no DLL was accepted. The other failures
/// are those of reading, of examining a file, and of the limits.
pub open spec fn is_outcome_of(
    start: Extraction,
    content: ArchiveContent,
    outcome: Result<ValidatedRelease, CatalogError>,
) -> bool {
    let count = content.entries.len() as int;
    match outcome {
        Ok(found) => {
            &&& is_sound(content)
            &&& found.dlls.len() > 0
            &&& lists_accepted(start, accepted_dlls(content, count), found.dlls@)
            &&& found.validation == if used_fallback(content, count) {
                ReleaseValidation::RevocationUnavailableFallback
            } else {
                ReleaseValidation::Full
            }
        },
        Err(error) => match error {
            CatalogError::NoProductionDlls => {
                &&& is_sound(content)
                &&& accepted_dlls(content, count).len() == 0
                &&& rejected_dlls(content, count).len() == 0
            },
            CatalogError::RejectedCandidates(reasons) => {
                &&& is_sound(content)
                &&& accepted_dlls(content, count).len() == 0
                &&& rejected_dlls(content, count).len() > 0
                &&& reasons@ == joined_with(rejected_dlls(content, count), "; "@)
            },
            CatalogError::UnsafePath(path) => exists|i: int| #[trigger]
                is_reached(content, i) && verdict_at(content, i) is Unsafe && path@
                    == with_slashes(content.entries[i].raw_name@),
            CatalogError::DuplicateEntry(path) => exists|i: int| #[trigger]
                is_reached(content, i) && verdict_at(content, i) is Duplicate && path@
                    == with_slashes(content.entries[i].enclosed_name->0@),
            CatalogError::InvalidPe(name) => is_spoiled_by(content, name@),
            CatalogError::TooManyEntries => count > MAX_ENTRIES,
            CatalogError::Untrusted(_) => false,
            _ => true,
        },
    }
}

proof fn fallback_grows(content: ArchiveContent, count: int)
    requires
        count >= 0,
    ensures
        used_fallback(content, count + 1) == (used_fallback(content, count) || (is_accepted(
            content,
            count,
        ) && content.trust[count].revocation == RevocationStatus::UnavailableFallback)),
{
}

/// What was found stays right when the next entries come, or how it ends.
proof fn going_on_keeps_right(
    start: Extraction,
    content: ArchiveContent,
    index: int,
    work: Extraction,
    next: ExtractStage,
)
    requires
        work.release == start.release,
        work.destination == start.destination,
        found_so_far(start, content, index, index, work),
        goes_on_at(work, index, next),
    ensures
        found_at(start, content, work, next),
{
    if index >= work.entries {
        assert(index == content.entries.len());
        assert(text_views(work.rejections@).len() == work.rejections.len());
    }
}

/// Each step of an extraction keeps what was found right.
proof fn steps_keep_right(
    start: Extraction,
    content: ArchiveContent,
    work: Extraction,
    stage: ExtractStage,
    reply: ExtractReply,
    after: Extraction,
    next: ExtractStage,
)
    requires
        found_at(start, content, work, stage),
        tells_content(content, stage, reply),
        extract_follows(work, stage, reply, after, next),
    ensures
        found_at(start, content, after, next),
{
    assert(views(work.seen@).len() == work.seen.len());
    assert(views(after.seen@).len() == after.seen.len());
    assert(text_views(work.rejections@).len() == work.rejections.len());
    assert(text_views(after.rejections@).len() == after.rejections.len());
    match (stage, reply) {
        (ExtractStage::Opening, ExtractReply::Opened(Ok(_))) => {
            assert(views(after.seen@) =~= first_keys(content, 0));
            assert(text_views(after.rejections@) =~= rejected_dlls(content, 0));
        },
        (ExtractStage::CreatingDirectory, ExtractReply::File(FileReply::Done(Ok(_)))) => {
            going_on_keeps_right(start, content, 0, after, next);
        },
        (ExtractStage::Reading { index }, ExtractReply::Entry(Ok(entry))) => {
            let at = index as int;
            assert(is_reached(content, at));
            assert(entry_verdict(views(work.seen@), entry) == verdict_at(content, at));
            if verdict_at(content, at) is Skip {
                assert(is_harmless(content, at));
                fallback_grows(content, at);
                assert(found_so_far(start, content, at + 1, at + 1, after));
                going_on_keeps_right(start, content, at + 1, after, next);
            }
        },
        (
            ExtractStage::Inspecting { index, name, sha256: _ },
            ExtractReply::File(FileReply::Inspected(Ok(metadata))),
        ) => {
            let at = index as int;
            assert(is_reached(content, at));
            if !metadata.x86_64 {
                assert(!is_harmless(content, at));
            }
        },
        (
            ExtractStage::Verifying { index, name, sha256, found },
            ExtractReply::File(FileReply::Verified(Ok(report))),
        ) => {
            let at = index as int;
            assert(is_reached(content, at));
            fallback_grows(content, at);
            if is_acceptable(report) {
                if found is None {
                    assert(!is_harmless(content, at));
                }
            } else {
                assert(is_harmless(content, at));
                assert(found_so_far(start, content, at + 1, at + 1, after));
            }
        },
        (ExtractStage::Discarding { index, name: _ }, ExtractReply::File(FileReply::Done(_))) => {
            going_on_keeps_right(start, content, index + 1, after, next);
        },
        (
            ExtractStage::Renaming { index, name, sha256, version },
            ExtractReply::File(FileReply::Done(Ok(_))),
        ) => {
            let at = index as int;
            assert(is_harmless(content, at));
            let accepted = accepted_dlls(content, at);
            let grown = accepted_dlls(content, at + 1);
            assert(grown == accepted.push(grown.last()));
            assert forall|i: int| 0 <= i < after.dlls.len() implies is_taken_out(
                start,
                grown[i].name,
                grown[i].sha256,
                grown[i].version,
                #[trigger] after.dlls@[i],
            ) by {
                if i < work.dlls.len() {
                    assert(after.dlls@.drop_last()[i] == work.dlls@[i]);
                }
            }
            assert(found_so_far(start, content, at + 1, at + 1, after));
            going_on_keeps_right(start, content, at + 1, after, next);
        },
        _ => {},
    }
}

/// An extraction, seen from its start to its end, lists exactly the accepted
/// production DLLs of an archive that no entry spoils, in the order of the
/// archive, and otherwise tells why it does not.
pub proof fn the_accepted_dlls_are_listed(
    content: ArchiveContent,
    replies: Seq<ExtractReply>,
    works: Seq<Extraction>,
    stages: Seq<ExtractStage>,
)
    requires
        is_extraction(content, replies, works, stages),
    ensures
        stages.last() matches ExtractStage::Ended { outcome } ==> is_outcome_of(
            works[0],
            content,
            outcome,
        ),
{
    an_extraction_stays_right(content, replies, works, stages);
}

proof fn an_extraction_stays_right(
    content: ArchiveContent,
    replies: Seq<ExtractReply>,
    works: Seq<Extraction>,
    stages: Seq<ExtractStage>,
)
    requires
        is_extraction(content, replies, works, stages),
    ensures
        found_at(works[0], content, works.last(), stages.last()),
    decreases replies.len(),
{
    if replies.len() > 0 {
        let last = replies.len() - 1;
        let fewer = replies.drop_last();
        let before = works.drop_last();
        let earlier = stages.drop_last();
        assert forall|i: int| #![trigger fewer[i]] 0 <= i < fewer.len() implies {
            &&& tells_content(content, earlier[i], fewer[i])
            &&& extract_follows(before[i], earlier[i], fewer[i], before[i + 1], earlier[i + 1])
        } by {
            assert(fewer[i] == replies[i]);
        }
        an_extraction_stays_right(content, fewer, before, earlier);
        assert(replies[last] == replies.last());
        steps_keep_right(
            works[0],
            content,
            works[last],
            stages[last],
            replies[last],
            works[last + 1],
            stages[last + 1],
        );
    }
}

/// The names of the first entries are compared one by one: without regard to
/// the case of letters, and with slashes.
pub proof fn every_name_is_noted(content: ArchiveContent, count: int)
    requires
        0 <= count,
    ensures
        first_keys(content, count).len() == count,
        forall|i: int|
            0 <= i < count ==> #[trigger] first_keys(content, count)[i] == ascii_folded(
                with_slashes(content.entries[i].enclosed_name->0@),
            ),
    decreases count,
{
    if count > 0 {
        every_name_is_noted(content, count - 1);
    }
}

/// Exactly the candidates with a good signature are accepted, in the order of
/// the archive, each with its name, its digest and its version.
pub proof fn every_signed_candidate_is_accepted(content: ArchiveContent, count: int) -> (accepted: Seq<
    int,
>)
    requires
        0 <= count,
    ensures
        picks(
            accepted,
            count,
            |i: int|
                entry_verdict(first_keys(content, i), content.entries[i]) is Candidate
                    && content.trust[i].signature == SignatureStatus::Trusted && nvidia_signature(
                    content.trust[i].signer,
                ),
        ),
        accepted_dlls(content, count).len() == accepted.len(),
        forall|k: int|
            #![trigger accepted_dlls(content, count)[k]]
            0 <= k < accepted.len() ==> {
                let dll = accepted_dlls(content, count)[k];
                let i = accepted[k];
                &&& dll.name == entry_verdict(first_keys(content, i), content.entries[i])->name
                &&& dll.sha256 == content.digests[i]
                &&& dll.version == content.metadata[i].version->0
            },
    decreases count,
{
    let here = |i: int|
        entry_verdict(first_keys(content, i), content.entries[i]) is Candidate
            && content.trust[i].signature == SignatureStatus::Trusted && nvidia_signature(
            content.trust[i].signer,
        );
    if count == 0 {
        picks_nothing(here);
        Seq::empty()
    } else {
        let before = every_signed_candidate_is_accepted(content, count - 1);
        picks_grow(before, count - 1, here, here)
    }
}

/// Exactly the other candidates are rejected, in the order of the archive.
pub proof fn every_other_candidate_is_rejected(content: ArchiveContent, count: int) -> (rejected: Seq<
    int,
>)
    requires
        0 <= count,
    ensures
        picks(
            rejected,
            count,
            |i: int|
                entry_verdict(first_keys(content, i), content.entries[i]) is Candidate && !(
                content.trust[i].signature == SignatureStatus::Trusted && nvidia_signature(
                    content.trust[i].signer,
                )),
        ),
        rejected_dlls(content, count).len() == rejected.len(),
        forall|k: int|
            0 <= k < rejected.len() ==> #[trigger] rejected_dlls(content, count)[k]
                == rejection_text(
                entry_verdict(
                    first_keys(content, rejected[k]),
                    content.entries[rejected[k]],
                )->name,
                content.trust[rejected[k]],
            ),
    decreases count,
{
    let here = |i: int|
        entry_verdict(first_keys(content, i), content.entries[i]) is Candidate && !(
        content.trust[i].signature == SignatureStatus::Trusted && nvidia_signature(
            content.trust[i].signer,
        ));
    if count == 0 {
        picks_nothing(here);
        Seq::empty()
    } else {
        let before = every_other_candidate_is_rejected(content, count - 1);
        picks_grow(before, count - 1, here, here)
    }
}

/// An extraction writes nothing but the DLLs that it takes out: each to a file
/// of its own in the destination, which takes the name of the DLL once it was
/// accepted, or is deleted. A candidate is verified as one of an official
/// release, before it has that name.
pub proof fn extractions_write_only_their_dlls(
    work: Extraction,
    stage: ExtractStage,
    action: ExtractAction,
)
    requires
        extract_asks(work, stage, action),
    ensures
        action matches ExtractAction::Unpack { index, to } ==> (stage
            matches ExtractStage::Unpacking { index: at, name } && at == index && to@ == joined(
            work.destination@,
            ".partial-"@ + name@,
        )),
        action matches ExtractAction::Describe { index } ==> stage == (ExtractStage::Reading {
            index,
        }),
        action matches ExtractAction::File(asked) ==> match asked {
            FileAction::Measure { path } => path == work.archive,
            FileAction::CreateDirectory { path } => path == work.destination,
            FileAction::Inspect { path } => stage matches ExtractStage::Inspecting { name, .. }
                && path@ == joined(work.destination@, ".partial-"@ + name@),
            FileAction::Verify { path, policy } => policy == TrustPolicy::OfficialNvidiaCatalog && (
            stage matches ExtractStage::Verifying { name, .. } && path@ == joined(
                work.destination@,
                ".partial-"@ + name@,
            )),
            FileAction::Look { path } => stage matches ExtractStage::LookingUp { name, .. }
                && path@ == joined(work.destination@, name@),
            FileAction::Rename { from, to } => stage matches ExtractStage::Renaming { name, .. }
                && from@ == joined(work.destination@, ".partial-"@ + name@) && to@ == joined(
                work.destination@,
                name@,
            ),
            FileAction::Remove { path } => match stage {
                ExtractStage::Discarding { name, .. } => path@ == joined(
                    work.destination@,
                    ".partial-"@ + name@,
                ),
                ExtractStage::Refusing { name } => path@ == joined(
                    work.destination@,
                    ".partial-"@ + name@,
                ),
                ExtractStage::RemovingOld { name, .. } => path@ == joined(
                    work.destination@,
                    name@,
                ),
                _ => false,
            },
            _ => false,
        },
{
}

} // verus!
