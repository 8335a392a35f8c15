//! Errors, and what the operating system has to offer.

use crate::discovery::DiscoveryOutcome;
use crate::model::DllMetadata;
use crate::paths::FilePath;
use crate::text::join_two;
use crate::tools::{
    SystemToolDefinition, SystemToolId, SystemToolState, ToolChangePlan, ToolChangeResult,
    ToolRestorePoint,
};
use crate::trust::{TrustPolicy, TrustReport};
use vstd::prelude::*;

verus! {

/// What this platform can do. The flags are independent of each other.
#[derive(Clone, Copy, Debug, PartialEq, Eq, Structural)]
pub struct PlatformCapabilities {
    pub game_discovery: bool,
    pub dll_versions: bool,
    pub authenticode: bool,
    pub atomic_replace: bool,
    pub elevation: bool,
    pub system_tools: bool,
}

impl Default for PlatformCapabilities {
    /// A platform on which nothing is supported.
    fn default() -> (capabilities: PlatformCapabilities)
        ensures
            capabilities == (PlatformCapabilities {
                game_discovery: false,
                dll_versions: false,
                authenticode: false,
                atomic_replace: false,
                elevation: false,
                system_tools: false,
            }),
    {
        PlatformCapabilities {
            game_discovery: false,
            dll_versions: false,
            authenticode: false,
            atomic_replace: false,
            elevation: false,
            system_tools: false,
        }
    }
}

/// What Windows can do: everything.
pub fn capabilities() -> (capabilities: PlatformCapabilities)
    ensures
        capabilities == (PlatformCapabilities {
            game_discovery: true,
            dll_versions: true,
            authenticode: true,
            atomic_replace: true,
            elevation: true,
            system_tools: true,
        }),
{
    PlatformCapabilities {
        game_discovery: true,
        dll_versions: true,
        authenticode: true,
        atomic_replace: true,
        elevation: true,
        system_tools: true,
    }
}

/// Why an operation failed.
#[derive(Debug, PartialEq, Eq)]
pub enum CoreError {
    /// An error of the operating system.
    Io { permission_denied: bool, message: String },
    Unsupported(&'static str),
    StalePlan,
    Validation(String),
    PermissionDenied,
    Cancelled,
}

/// How an error is worded.
pub open spec fn error_text(error: CoreError) -> Seq<char> {
    match error {
        CoreError::Io { permission_denied: _, message } => "I/O error: "@ + message@,
        CoreError::Unsupported(what) => "unsupported capability: "@ + what@,
        CoreError::StalePlan => "stale operation plan"@,
        CoreError::Validation(message) => "validation failed: "@ + message@,
        CoreError::PermissionDenied => "access was denied; elevation is required"@,
        CoreError::Cancelled => "operation was cancelled"@,
    }
}

/// Whether an operation failed for lack of privileges.
pub open spec fn lacks_privileges(error: CoreError) -> bool {
    match error {
        CoreError::PermissionDenied => true,
        CoreError::Io { permission_denied, message: _ } => permission_denied,
        _ => false,
    }
}

impl CoreError {
    /// Whether the operation failed for lack of privileges and could succeed
    /// with more of them. This goes by the structure of the error, never by
    /// the wording that the operating system chose.
    pub fn is_permission_denied(&self) -> (denied: bool)
        ensures
            denied == lacks_privileges(*self),
    {
        match self {
            CoreError::PermissionDenied => true,
            CoreError::Io { permission_denied, message: _ } => *permission_denied,
            _ => false,
        }
    }

    /// The error in words.
    pub fn to_text(&self) -> (text: String)
        ensures
            text@ == error_text(*self),
    {
        match self {
            CoreError::Io { permission_denied: _, message } => join_two("I/O error: ", message),
            CoreError::Unsupported(what) => join_two("unsupported capability: ", what),
            CoreError::StalePlan => "stale operation plan".to_owned(),
            CoreError::Validation(message) => join_two("validation failed: ", message),
            CoreError::PermissionDenied => "access was denied; elevation is required".to_owned(),
            CoreError::Cancelled => "operation was cancelled".to_owned(),
        }
    }
}

/// A validation error with the given wording.
pub fn refused(message: &str) -> (error: CoreError)
    ensures
        error matches CoreError::Validation(text) && text@ == message@,
{
    CoreError::Validation(message.to_owned())
}

/// Finds the games that are installed on this machine.
pub trait GameLocator: Send + Sync {
    /// Discovers installed games.
    fn discover(&self) -> Result<DiscoveryOutcome, CoreError>;
}

/// Reads what there is to know about a DLL file.
pub trait DllInspector: Send + Sync {
    /// Reads the metadata of the file at `path`.
    fn inspect(&self, path: &FilePath) -> Result<DllMetadata, CoreError>;
}

/// Checks the signature of a DLL file.
pub trait TrustVerifier: Send + Sync {
    /// Evaluates the signature of the file at `path` under `policy`.
    fn verify(&self, path: &FilePath, policy: TrustPolicy) -> Result<TrustReport, CoreError>;
}

/// The directories that the platform sets aside for applications.
pub trait KnownDirectories: Send + Sync {
    /// The application data of the current user.
    fn local_app_data(&self) -> Result<FilePath, CoreError>;

    /// The application data of the whole machine.
    fn program_data(&self) -> Result<FilePath, CoreError>;
}

/// Replaces files in one step.
pub trait AtomicFileReplacer: Send + Sync {
    /// Replaces `target` by `source`, whose digest has to be
    /// `expected_source_hash`.
    fn replace(
        &self,
        target: &FilePath,
        source: &FilePath,
        expected_source_hash: [u8; 32],
    ) -> Result<(), CoreError>;
}

/// Starts the helper with more privileges.
pub trait PrivilegeBroker: Send + Sync {
    /// Runs the helper on the plan stored at `plan`.
    fn run_elevated(&self, plan: &FilePath) -> Result<(), CoreError>;
}

/// Reads and changes system tools.
pub trait SystemToolProvider: Send + Sync {
    /// What this platform can do.
    fn capabilities(&self) -> PlatformCapabilities;

    /// The tools that there are.
    fn definitions(&self) -> Vec<SystemToolDefinition>;

    /// The current state of a tool.
    fn read(&self, id: &SystemToolId) -> Result<SystemToolState, CoreError>;

    /// Changes a tool.
    fn apply(&self, plan: &ToolChangePlan) -> Result<ToolChangeResult, CoreError>;

    /// Puts a tool back to an earlier state.
    fn restore(
        &self,
        point: &ToolRestorePoint,
        expected_current_hash: [u8; 32],
        allow_stale: bool,
    ) -> Result<ToolChangeResult, CoreError>;
}

} // verus!
