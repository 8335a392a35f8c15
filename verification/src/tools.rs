//! System tools: the DLSS on-screen indicator and its registry value.

use crate::paths::FilePath;
use vstd::prelude::*;

verus! {

/// Identifies a system tool.
#[derive(Debug, PartialEq, Eq, PartialOrd, Ord, Hash)]
pub struct SystemToolId(pub String);

impl View for SystemToolId {
    type V = Seq<char>;

    open spec fn view(&self) -> Seq<char> {
        self.0@
    }
}

impl Clone for SystemToolId {
    fn clone(&self) -> (copy: SystemToolId)
        ensures
            copy == *self,
    {
        SystemToolId(self.0.clone())
    }
}

impl SystemToolId {
    /// The tool identifier written as `text`.
    pub fn new(text: &str) -> (id: SystemToolId)
        ensures
            id@ == text@,
    {
        SystemToolId(text.to_owned())
    }

    /// Whether two identifiers have the same text.
    pub fn same(&self, other: &SystemToolId) -> (same: bool)
        ensures
            same == (self@ == other@),
    {
        self.0 == other.0
    }
}

/// The identifier of the DLSS on-screen indicator.
pub const DLSS_INDICATOR_TOOL_ID: &'static str = "nvidia.dlss_indicator";

/// What a tool applies to.
#[derive(Clone, Copy, Debug, PartialEq, Eq, Structural)]
pub enum SystemToolScope {
    Global,
    PerGame,
    PerPlatform,
}

/// What the user is told about a tool.
#[derive(Debug, PartialEq, Eq)]
pub struct SystemToolDefinition {
    pub id: SystemToolId,
    pub display_name: String,
    pub warning: String,
    pub scope: SystemToolScope,
    pub requires_elevation: bool,
}

/// The state of a tool as its registry value shows it.
#[derive(Debug, PartialEq, Eq)]
pub enum SystemToolState {
    NotConfigured,
    Off,
    DlssIndicatorDebug,
    DlssIndicatorProduction,
    CustomDword(u32),
    UnexpectedType { registry_type: u32, raw: Vec<u8> },
    Unavailable(String),
}

/// Whether two states say the same.
pub open spec fn same_state(left: SystemToolState, right: SystemToolState) -> bool {
    match (left, right) {
        (
            SystemToolState::UnexpectedType { registry_type: left_type, raw: left_raw },
            SystemToolState::UnexpectedType { registry_type: right_type, raw: right_raw },
        ) => left_type == right_type && left_raw@ == right_raw@,
        _ => left == right,
    }
}

/// The bytes of a slice, as a list.
pub fn list_bytes(bytes: &[u8]) -> (list: Vec<u8>)
    ensures
        list@ == bytes@,
{
    let mut list: Vec<u8> = Vec::new();
    let mut at: usize = 0;
    while at < bytes.len()
        invariant
            at <= bytes.len(),
            list@ == bytes@.take(at as int),
        decreases bytes.len() - at,
    {
        list.push(bytes[at]);
        at += 1;
        proof {
            assert(list@ =~= bytes@.take(at as int));
        }
    }
    proof {
        assert(bytes@.take(at as int) =~= bytes@);
    }
    list
}

/// A copy of a byte list.
pub fn copy_bytes(bytes: &Vec<u8>) -> (copy: Vec<u8>)
    ensures
        copy@ == bytes@,
{
    let copy = bytes.clone();
    proof {
        assert(copy@ =~= bytes@);
    }
    copy
}

impl Clone for SystemToolState {
    fn clone(&self) -> (copy: SystemToolState)
        ensures
            same_state(copy, *self),
    {
        match self {
            SystemToolState::NotConfigured => SystemToolState::NotConfigured,
            SystemToolState::Off => SystemToolState::Off,
            SystemToolState::DlssIndicatorDebug => SystemToolState::DlssIndicatorDebug,
            SystemToolState::DlssIndicatorProduction => SystemToolState::DlssIndicatorProduction,
            SystemToolState::CustomDword(value) => SystemToolState::CustomDword(*value),
            SystemToolState::UnexpectedType { registry_type, raw } => {
                SystemToolState::UnexpectedType {
                    registry_type: *registry_type,
                    raw: copy_bytes(raw),
                }
            },
            SystemToolState::Unavailable(reason) => SystemToolState::Unavailable(reason.clone()),
        }
    }
}

/// Which half of the registry a value was read from.
#[derive(Clone, Copy, Debug, PartialEq, Eq, Structural)]
pub enum RegistryView {
    View32,
    View64,
}

/// A registry value as it was at one moment.
#[derive(Debug, PartialEq, Eq)]
pub struct RegistryValueSnapshot {
    pub existed: bool,
    pub registry_view: RegistryView,
    pub registry_type: Option<u32>,
    pub raw: Vec<u8>,
    pub captured_unix: i64,
}

/// Whether two snapshots hold the same.
pub open spec fn same_snapshot(left: RegistryValueSnapshot, right: RegistryValueSnapshot) -> bool {
    &&& left.existed == right.existed
    &&& left.registry_view == right.registry_view
    &&& left.registry_type == right.registry_type
    &&& left.raw@ == right.raw@
    &&& left.captured_unix == right.captured_unix
}

impl Clone for RegistryValueSnapshot {
    fn clone(&self) -> (copy: RegistryValueSnapshot)
        ensures
            same_snapshot(copy, *self),
    {
        RegistryValueSnapshot {
            existed: self.existed,
            registry_view: self.registry_view,
            registry_type: self.registry_type,
            raw: copy_bytes(&self.raw),
            captured_unix: self.captured_unix,
        }
    }
}

/// A change of a tool's state.
#[derive(Debug, PartialEq, Eq)]
pub struct ToolChangePlan {
    pub tool_id: SystemToolId,
    pub desired: SystemToolState,
    pub restore_point: Option<ToolRestorePoint>,
    pub expected_current_hash: [u8; 32],
    pub nonce: String,
    pub result_path: FilePath,
    pub allow_stale_restore: bool,
}

/// The registry value before a change, and the digest of what the change left.
#[derive(Debug, PartialEq, Eq)]
pub struct ToolRestorePoint {
    pub tool_id: SystemToolId,
    pub snapshot: RegistryValueSnapshot,
    pub state_after_hash: [u8; 32],
    pub app_version: String,
}

/// The state of a tool after a change, and how to go back.
#[derive(Debug, PartialEq, Eq)]
pub struct ToolChangeResult {
    pub tool_id: SystemToolId,
    pub state: SystemToolState,
    pub restore_point: Option<ToolRestorePoint>,
}

} // verus!
