//! How things are worded on the screen.

use crate::icons;
use crate::imports::{is_import_id, is_imported_release};
use crate::kinds::{name_kind, DllKind};
use crate::model::{
    version_text, Comparison, DesiredDll, DllVersion, FileName, ReleaseState, SignatureStatus,
    StoreKind,
};
use crate::paths::{readable, readable_text};
use crate::text::{decimal, decimal_text, join_three, join_two, same_text};
use crate::tools::SystemToolState;
use vstd::prelude::*;

verus! {

/// A count and what is counted, in the singular or the plural.
pub open spec fn counted(count: nat, noun: Seq<char>) -> Seq<char> {
    if count == 1 {
        "1 "@ + noun
    } else {
        decimal(count) + " "@ + noun + "s"@
    }
}

/// A count and what is counted, in the singular or the plural.
pub fn plural(count: usize, noun: &str) -> (text: String)
    ensures
        text@ == counted(count as nat, noun@),
{
    if count == 1 {
        join_two("1 ", noun)
    } else {
        join_two(&join_three(&decimal_text(count as u64), " ", noun), "s")
    }
}

/// What the screen says of a tool's state.
pub open spec fn state_wording(state: SystemToolState) -> Seq<char> {
    match state {
        SystemToolState::NotConfigured => "Not configured"@,
        SystemToolState::Off => "Off"@,
        SystemToolState::DlssIndicatorDebug => "Debug only"@,
        SystemToolState::DlssIndicatorProduction => "Production + debug"@,
        SystemToolState::CustomDword(value) => "Custom value ("@ + decimal(value as nat) + ")"@,
        SystemToolState::UnexpectedType { .. } => "Unexpected registry type"@,
        SystemToolState::Unavailable(reason) => "Unavailable ("@ + reason@ + ")"@,
    }
}

/// A tool's state in words. A value that the program does not know is shown.
pub fn state_label(state: &SystemToolState) -> (label: String)
    ensures
        label@ == state_wording(*state),
{
    match state {
        SystemToolState::NotConfigured => "Not configured".to_owned(),
        SystemToolState::Off => "Off".to_owned(),
        SystemToolState::DlssIndicatorDebug => "Debug only".to_owned(),
        SystemToolState::DlssIndicatorProduction => "Production + debug".to_owned(),
        SystemToolState::CustomDword(value) => join_three(
            "Custom value (",
            &decimal_text(*value as u64),
            ")",
        ),
        SystemToolState::UnexpectedType { .. } => "Unexpected registry type".to_owned(),
        SystemToolState::Unavailable(reason) => join_three("Unavailable (", reason, ")"),
    }
}

/// How far a download has come, as a percentage behind a space; nothing if the
/// size is not known.
pub open spec fn percentage(received: u64, total: Option<u64>) -> Seq<char> {
    match total {
        Some(total) => if total > 0 {
            let scaled = if received * 100 > u64::MAX {
                u64::MAX as int
            } else {
                received * 100
            };
            " "@ + decimal((scaled / total as int) as nat) + "%"@
        } else {
            Seq::empty()
        },
        None => Seq::empty(),
    }
}

/// What the screen says of a release on its way into the cache.
pub open spec fn progress_wording(
    state: ReleaseState,
    received: u64,
    total: Option<u64>,
) -> Seq<char> {
    match state {
        ReleaseState::Downloading => "Downloading official release…"@ + percentage(received, total),
        ReleaseState::Downloaded => "Download complete"@,
        ReleaseState::Validating => "Validating official DLLs…"@,
        ReleaseState::Invalid => "Release validation failed"@,
        ReleaseState::Ready => "Release ready"@,
        ReleaseState::MetadataOnly => "Release metadata loaded"@,
    }
}

/// A release on its way into the cache, in words.
pub fn progress_label(state: ReleaseState, received: u64, total: Option<u64>) -> (label: String)
    ensures
        label@ == progress_wording(state, received, total),
{
    match state {
        ReleaseState::Downloading => {
            let amount = match total {
                Some(total) => {
                    if total > 0 {
                        let scaled: u64 = if received > u64::MAX / 100 {
                            u64::MAX
                        } else {
                            received * 100
                        };
                        join_three(" ", &decimal_text(scaled / total), "%")
                    } else {
                        String::new()
                    }
                },
                None => String::new(),
            };
            proof {
                assert(amount@ =~= percentage(received, total));
            }
            join_two("Downloading official release…", &amount)
        },
        ReleaseState::Downloaded => "Download complete".to_owned(),
        ReleaseState::Validating => "Validating official DLLs…".to_owned(),
        ReleaseState::Invalid => "Release validation failed".to_owned(),
        ReleaseState::Ready => "Release ready".to_owned(),
        ReleaseState::MetadataOnly => "Release metadata loaded".to_owned(),
    }
}

/// What the screen says of a choice.
pub open spec fn desired_wording(desired: DesiredDll) -> Seq<char> {
    match desired {
        DesiredDll::KeepInstalled => "Keep installed"@,
        DesiredDll::LatestOfficial => "Latest official"@,
        DesiredDll::Cached { release, sha256: _ } => if is_import_id(release@) {
            "Imported"@
        } else {
            "Cached "@ + release@
        },
        DesiredDll::Restore { .. } => "Restore point"@,
    }
}

/// A choice in words. An imported DLL goes by that, not by its identifier.
pub fn desired_label(desired: &DesiredDll) -> (label: String)
    ensures
        label@ == desired_wording(*desired),
{
    match desired {
        DesiredDll::KeepInstalled => "Keep installed".to_owned(),
        DesiredDll::LatestOfficial => "Latest official".to_owned(),
        DesiredDll::Cached { release, sha256: _ } => {
            if is_imported_release(release) {
                "Imported".to_owned()
            } else {
                join_two("Cached ", &release.0)
            }
        },
        DesiredDll::Restore { .. } => "Restore point".to_owned(),
    }
}

/// The outcome of a signature check in words.
pub fn signature_label(status: SignatureStatus) -> (label: &'static str)
    ensures
        label@ == match status {
            SignatureStatus::Trusted => "Signed (trusted)"@,
            SignatureStatus::Untrusted => "Signature not trusted"@,
            SignatureStatus::Unsigned => "Not signed"@,
            SignatureStatus::Unavailable => "Signature not checked"@,
        },
{
    match status {
        SignatureStatus::Trusted => "Signed (trusted)",
        SignatureStatus::Untrusted => "Signature not trusted",
        SignatureStatus::Unsigned => "Not signed",
        SignatureStatus::Unavailable => "Signature not checked",
    }
}

/// A comparison with the latest release in words.
pub fn comparison_label(comparison: Comparison) -> (label: &'static str)
    ensures
        label@ == match comparison {
            Comparison::Upgrade => "Update available"@,
            Comparison::Downgrade => "Newer than latest"@,
            Comparison::Identical => "Up to date"@,
            Comparison::DifferentBuild => "Different build"@,
            Comparison::Unknown => "Version unknown"@,
            Comparison::Unavailable => "Not in release"@,
        },
{
    match comparison {
        Comparison::Upgrade => "Update available",
        Comparison::Downgrade => "Newer than latest",
        Comparison::Identical => "Up to date",
        Comparison::DifferentBuild => "Different build",
        Comparison::Unknown => "Version unknown",
        Comparison::Unavailable => "Not in release",
    }
}

/// Where a family of DLLs stands on a game's page.
pub open spec fn kind_rank(kind: Option<DllKind>) -> u8 {
    match kind {
        Some(DllKind::DlssSuperResolution) => 0,
        Some(DllKind::DlssFrameGeneration) => 1,
        Some(DllKind::DlssRayReconstruction) => 2,
        Some(DllKind::ReflexLowLatency) => 3,
        Some(DllKind::Streamline) => 4,
        Some(DllKind::OtherNgx) => 5,
        None => 6,
    }
}

/// Where a DLL of this name stands on a game's page.
pub fn dll_kind_rank(file_name: &FileName) -> (rank: u8)
    ensures
        rank == kind_rank(name_kind(*file_name)),
{
    match DllKind::classify(file_name) {
        Some(DllKind::DlssSuperResolution) => 0,
        Some(DllKind::DlssFrameGeneration) => 1,
        Some(DllKind::DlssRayReconstruction) => 2,
        Some(DllKind::ReflexLowLatency) => 3,
        Some(DllKind::Streamline) => 4,
        Some(DllKind::OtherNgx) => 5,
        None => 6,
    }
}

/// What the screen calls a family of DLLs.
pub open spec fn kind_wording(kind: Option<DllKind>) -> Seq<char> {
    match kind {
        Some(DllKind::DlssSuperResolution) => "DLSS Super Resolution"@,
        Some(DllKind::DlssFrameGeneration) => "DLSS Frame Generation"@,
        Some(DllKind::DlssRayReconstruction) => "DLSS Ray Reconstruction"@,
        Some(DllKind::ReflexLowLatency) => "NVIDIA Reflex"@,
        Some(DllKind::Streamline) => "Streamline"@,
        Some(DllKind::OtherNgx) => "Other NGX"@,
        None => "Other"@,
    }
}

/// The name of a family of DLLs.
pub fn dll_kind_heading(kind: Option<DllKind>) -> (heading: &'static str)
    ensures
        heading@ == kind_wording(kind),
{
    match kind {
        Some(DllKind::DlssSuperResolution) => "DLSS Super Resolution",
        Some(DllKind::DlssFrameGeneration) => "DLSS Frame Generation",
        Some(DllKind::DlssRayReconstruction) => "DLSS Ray Reconstruction",
        Some(DllKind::ReflexLowLatency) => "NVIDIA Reflex",
        Some(DllKind::Streamline) => "Streamline",
        Some(DllKind::OtherNgx) => "Other NGX",
        None => "Other",
    }
}

/// The icon of a family of DLLs.
pub fn dll_kind_icon(kind: Option<DllKind>) -> (icon: &'static str)
    ensures
        icon@ == match kind {
            Some(DllKind::DlssSuperResolution) => icons::SPARKLE@,
            Some(DllKind::DlssFrameGeneration) => icons::LIGHTNING@,
            Some(DllKind::DlssRayReconstruction) => icons::EYE@,
            Some(DllKind::ReflexLowLatency) => icons::PULSE@,
            Some(DllKind::Streamline) => icons::STACK@,
            Some(DllKind::OtherNgx) | None => icons::PACKAGE@,
        },
{
    match kind {
        Some(DllKind::DlssSuperResolution) => icons::SPARKLE,
        Some(DllKind::DlssFrameGeneration) => icons::LIGHTNING,
        Some(DllKind::DlssRayReconstruction) => icons::EYE,
        Some(DllKind::ReflexLowLatency) => icons::PULSE,
        Some(DllKind::Streamline) => icons::STACK,
        Some(DllKind::OtherNgx) | None => icons::PACKAGE,
    }
}

/// A file name as it is shown.
pub open spec fn shown_name(name: FileName) -> Seq<char> {
    match name {
        FileName::Unicode(text) => text@,
        FileName::Other(text) => readable(text@),
    }
}

/// A file name as it is shown.
pub fn file_name_text(name: &FileName) -> (text: String)
    ensures
        text@ == shown_name(*name),
{
    match name {
        FileName::Unicode(text) => text.clone(),
        FileName::Other(text) => readable_text(text),
    }
}

/// What a DLL is called: its family, or its file name where it has none.
pub open spec fn friendly_name(name: FileName) -> Seq<char> {
    if name_kind(name) is Some {
        kind_wording(name_kind(name))
    } else {
        shown_name(name)
    }
}

/// What a DLL is called.
pub fn friendly_dll_label(name: &FileName) -> (label: String)
    ensures
        label@ == friendly_name(*name),
{
    match DllKind::classify(name) {
        Some(kind) => dll_kind_heading(Some(kind)).to_owned(),
        None => file_name_text(name),
    }
}

/// What the screen says of a version that may not be known.
pub open spec fn version_wording(version: Option<DllVersion>, unknown: Seq<char>) -> Seq<char> {
    match version {
        Some(version) => version_text(version),
        None => unknown,
    }
}

/// A version in words.
pub fn version_label(version: Option<DllVersion>) -> (text: String)
    ensures
        text@ == version_wording(version, "unknown"@),
{
    match version {
        Some(version) => version.to_text(),
        None => "unknown".to_owned(),
    }
}

/// What the screen calls a store.
pub open spec fn store_wording(store: StoreKind) -> Seq<char> {
    match store {
        StoreKind::Steam => "Steam"@,
        StoreKind::Epic => "Epic"@,
        StoreKind::Gog => "GOG"@,
        StoreKind::Manual => "Manual"@,
    }
}

/// The name of a store.
pub fn store_label(store: StoreKind) -> (label: &'static str)
    ensures
        label@ == store_wording(store),
{
    match store {
        StoreKind::Steam => "Steam",
        StoreKind::Epic => "Epic",
        StoreKind::Gog => "GOG",
        StoreKind::Manual => "Manual",
    }
}

/// The icon and the wording for a kind of activity. What is not known is shown
/// as a change.
pub fn activity_kind(kind: &str) -> (shown: (&'static str, &'static str))
    ensures
        (shown.0@, shown.1@) == if kind@ == "dll_swap"@ {
            (icons::ARROW_CIRCLE_UP@, "DLL update"@)
        } else if kind@ == "restore"@ {
            (icons::ARROW_U_UP_LEFT@, "Undo"@)
        } else if kind@ == "tool_change"@ {
            (icons::WRENCH@, "Indicator"@)
        } else if kind@ == "tool_restore"@ {
            (icons::ARROW_U_UP_LEFT@, "Indicator restore"@)
        } else {
            (icons::INFO@, "Change"@)
        },
{
    if same_text(kind, "dll_swap") {
        (icons::ARROW_CIRCLE_UP, "DLL update")
    } else if same_text(kind, "restore") {
        (icons::ARROW_U_UP_LEFT, "Undo")
    } else if same_text(kind, "tool_change") {
        (icons::WRENCH, "Indicator")
    } else if same_text(kind, "tool_restore") {
        (icons::ARROW_U_UP_LEFT, "Indicator restore")
    } else {
        (icons::INFO, "Change")
    }
}

} // verus!
