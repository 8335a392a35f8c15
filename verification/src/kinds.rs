//! The families of NVIDIA DLLs that are managed, told apart by file name.

use crate::model::FileName;
use crate::paths::FilePath;
use crate::text::{
    ascii_folded, begins, chars_of, ends, fold_text, folded_words_are_spelled, same_chars, spells,
    stands_at,
};
use vstd::prelude::*;

verus! {

/// The family of a managed DLL.
#[derive(Clone, Copy, Debug, PartialEq, Eq, Structural)]
pub enum DllKind {
    DlssSuperResolution,
    DlssFrameGeneration,
    DlssRayReconstruction,
    ReflexLowLatency,
    Streamline,
    OtherNgx,
}

/// The family that a file name belongs to, whatever the case of its letters.
pub open spec fn kind_of(name: Seq<char>) -> Option<DllKind> {
    let folded = ascii_folded(name);
    if folded == "nvngx_dlss.dll"@ {
        Some(DllKind::DlssSuperResolution)
    } else if folded == "nvngx_dlssg.dll"@ {
        Some(DllKind::DlssFrameGeneration)
    } else if folded == "nvngx_dlssd.dll"@ {
        Some(DllKind::DlssRayReconstruction)
    } else if folded == "nvlowlatencyvk.dll"@ {
        Some(DllKind::ReflexLowLatency)
    } else if begins(folded, "sl."@) && ends(folded, ".dll"@) {
        Some(DllKind::Streamline)
    } else if begins(folded, "nvngx_"@) && ends(folded, ".dll"@) {
        Some(DllKind::OtherNgx)
    } else {
        None
    }
}

/// The family of the file named `name`. A name that is not Unicode text
/// belongs to none.
pub open spec fn name_kind(name: FileName) -> Option<DllKind> {
    match name {
        FileName::Unicode(text) => kind_of(text@),
        FileName::Other(_) => None,
    }
}

/// The family of the file that a path leads to.
pub open spec fn path_kind(path: Seq<char>) -> Option<DllKind> {
    if crate::paths::has_name(path) && !crate::paths::last_part(path).contains('\0') {
        kind_of(crate::paths::last_part(path))
    } else {
        None
    }
}

/// Whether a family belongs to DLSS itself: super resolution, frame generation
/// or ray reconstruction.
pub open spec fn dlss_family(kind: DllKind) -> bool {
    kind == DllKind::DlssSuperResolution || kind == DllKind::DlssFrameGeneration || kind
        == DllKind::DlssRayReconstruction
}

/// Whether a name belongs to a DLL of DLSS itself.
pub open spec fn is_dlss_name(name: FileName) -> bool {
    name_kind(name) matches Some(kind) && dlss_family(kind)
}

fn is_named(folded: &Vec<char>, name: &str) -> (same: bool)
    ensures
        same == (folded@ == name@),
{
    let name = chars_of(name);
    same_chars(folded, &name)
}

fn is_framed(folded: &Vec<char>, start: &str, end: &str) -> (framed: bool)
    ensures
        framed == (begins(folded@, start@) && ends(folded@, end@)),
{
    let start = chars_of(start);
    let end = chars_of(end);
    end.len() <= folded.len() && stands_at(folded, &start, 0) && stands_at(
        folded,
        &end,
        folded.len() - end.len(),
    )
}

/// The family of a name given as text.
pub fn classify_text(name: &str) -> (kind: Option<DllKind>)
    ensures
        kind == kind_of(name@),
{
    let folded = fold_text(name);
    if is_named(&folded, "nvngx_dlss.dll") {
        Some(DllKind::DlssSuperResolution)
    } else if is_named(&folded, "nvngx_dlssg.dll") {
        Some(DllKind::DlssFrameGeneration)
    } else if is_named(&folded, "nvngx_dlssd.dll") {
        Some(DllKind::DlssRayReconstruction)
    } else if is_named(&folded, "nvlowlatencyvk.dll") {
        Some(DllKind::ReflexLowLatency)
    } else if is_framed(&folded, "sl.", ".dll") {
        Some(DllKind::Streamline)
    } else if is_framed(&folded, "nvngx_", ".dll") {
        Some(DllKind::OtherNgx)
    } else {
        None
    }
}

/// The family of the file that `path` leads to.
pub fn classify_path(path: &FilePath) -> (kind: Option<DllKind>)
    ensures
        kind == path_kind(path@),
{
    match path.file_name() {
        Some(name) => {
            let chars = chars_of(&name);
            let mut at: usize = 0;
            while at < chars.len()
                invariant
                    at <= chars.len(),
                    chars@ == crate::paths::last_part(path@),
                    forall|i: int| 0 <= i < at ==> chars[i] != '\0',
                decreases chars.len() - at,
            {
                if chars[at] == '\0' {
                    proof {
                        assert(chars@[at as int] == '\0');
                    }
                    return None;
                }
                at += 1;
            }
            classify_text(&name)
        },
        None => None,
    }
}

impl DllKind {
    /// The family of the file named `name`.
    pub fn classify(name: &FileName) -> (kind: Option<DllKind>)
        ensures
            kind == name_kind(*name),
    {
        match name {
            FileName::Unicode(text) => classify_text(text),
            FileName::Other(_) => None,
        }
    }

    /// Whether this family belongs to DLSS itself.
    pub fn is_dlss_family(self) -> (dlss: bool)
        ensures
            dlss == dlss_family(self),
    {
        match self {
            DllKind::DlssSuperResolution
            | DllKind::DlssFrameGeneration
            | DllKind::DlssRayReconstruction => true,
            _ => false,
        }
    }
}

/// Whether a name belongs to a DLL of DLSS itself.
pub fn is_dlss_dll(name: &FileName) -> (dlss: bool)
    ensures
        dlss == is_dlss_name(*name),
{
    match DllKind::classify(name) {
        Some(kind) => kind.is_dlss_family(),
        None => false,
    }
}

/// Whether the file is one that this program manages.
pub fn is_managed_dll(name: &FileName) -> (managed: bool)
    ensures
        managed == (name_kind(*name) is Some),
{
    DllKind::classify(name).is_some()
}

/// Whether a text begins with one word and ends with another, in any case of
/// letters.
pub open spec fn is_framed_by(text: Seq<char>, start: Seq<char>, end: Seq<char>) -> bool {
    &&& text.len() >= start.len()
    &&& text.len() >= end.len()
    &&& spells(text.take(start.len() as int), start)
    &&& spells(text.skip(text.len() - end.len()), end)
}

proof fn framing_is_folded(text: Seq<char>, start: Seq<char>, end: Seq<char>)
    requires
        forall|i: int| 0 <= i < start.len() ==> !('A' <= #[trigger] start[i] <= 'Z'),
        forall|i: int| 0 <= i < end.len() ==> !('A' <= #[trigger] end[i] <= 'Z'),
    ensures
        begins(ascii_folded(text), start) && ends(ascii_folded(text), end) <==> is_framed_by(
            text,
            start,
            end,
        ),
{
    let folded = ascii_folded(text);
    if text.len() >= start.len() && text.len() >= end.len() {
        let head = text.take(start.len() as int);
        let tail = text.skip(text.len() - end.len());
        folded_words_are_spelled(head, start);
        folded_words_are_spelled(tail, end);
        assert(folded.subrange(0, start.len() as int) =~= ascii_folded(head));
        assert(folded.subrange(folded.len() - end.len(), folded.len() as int) =~= ascii_folded(
            tail,
        ));
    }
}

/// The family of a file goes by its name alone, in any case of letters: the
/// four DLLs that are known by name, what is called `sl.*.dll`, and what else
/// is called `nvngx_*.dll`. No other file is managed.
pub proof fn families_go_by_name(name: Seq<char>)
    ensures
        spells(name, "nvngx_dlss.dll"@) <==> kind_of(name) == Some(DllKind::DlssSuperResolution),
        spells(name, "nvngx_dlssg.dll"@) <==> kind_of(name) == Some(DllKind::DlssFrameGeneration),
        spells(name, "nvngx_dlssd.dll"@) <==> kind_of(name) == Some(
            DllKind::DlssRayReconstruction,
        ),
        spells(name, "nvlowlatencyvk.dll"@) <==> kind_of(name) == Some(DllKind::ReflexLowLatency),
        is_framed_by(name, "sl."@, ".dll"@) <==> kind_of(name) == Some(DllKind::Streamline),
        is_framed_by(name, "nvngx_"@, ".dll"@) && !spells(name, "nvngx_dlss.dll"@) && !spells(
            name,
            "nvngx_dlssg.dll"@,
        ) && !spells(name, "nvngx_dlssd.dll"@) <==> kind_of(name) == Some(DllKind::OtherNgx),
{
    reveal_strlit("nvngx_dlss.dll");
    reveal_strlit("nvngx_dlssg.dll");
    reveal_strlit("nvngx_dlssd.dll");
    reveal_strlit("nvlowlatencyvk.dll");
    reveal_strlit("sl.");
    reveal_strlit("nvngx_");
    reveal_strlit(".dll");
    folded_words_are_spelled(name, "nvngx_dlss.dll"@);
    folded_words_are_spelled(name, "nvngx_dlssg.dll"@);
    folded_words_are_spelled(name, "nvngx_dlssd.dll"@);
    folded_words_are_spelled(name, "nvlowlatencyvk.dll"@);
    framing_is_folded(name, "sl."@, ".dll"@);
    framing_is_folded(name, "nvngx_"@, ".dll"@);
    assert("nvngx_dlssg.dll"@[10] != "nvngx_dlssd.dll"@[10]);
    let folded = ascii_folded(name);
    if begins(folded, "sl."@) {
        assert(folded.subrange(0, 3)[0] == 's');
        assert(folded[0] == 's');
    }
    if begins(folded, "nvngx_"@) {
        assert(folded.subrange(0, 6)[0] == 'n');
        assert(folded.subrange(0, 6)[2] == 'n');
        assert(folded[0] == 'n' && folded[2] == 'n');
    }
}

/// DLSS itself is super resolution, frame generation and ray reconstruction.
pub proof fn dlss_has_three_families(name: FileName)
    ensures
        is_dlss_name(name) <==> (name matches FileName::Unicode(text) && (spells(
            text@,
            "nvngx_dlss.dll"@,
        ) || spells(text@, "nvngx_dlssg.dll"@) || spells(text@, "nvngx_dlssd.dll"@))),
        name is Other ==> name_kind(name) is None,
{
    if let FileName::Unicode(text) = name {
        families_go_by_name(text@);
    }
}

} // verus!
