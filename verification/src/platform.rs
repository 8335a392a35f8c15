//! What Windows reports, taken as plain values.

use crate::digest::{digest_of, hex, hex_hash, sha256};
use crate::model::{DllMetadata, DllVersion};
use crate::portable::{is_windows_library, object_facts, read_object};
use crate::text::join_three;
use crate::traits::{refused, CoreError};
use crate::trust::TrustReport;
use vstd::prelude::*;

verus! {

/// The code by which Windows says that access was denied.
pub const ACCESS_DENIED: i32 = -2147024891;

/// The code by which Windows says that the user dismissed its prompt.
pub const PROMPT_DISMISSED: i32 = -2147023673;

/// An error of Windows. Only its wording is kept.
pub fn windows_error(message: String) -> (error: CoreError)
    ensures
        error == CoreError::Validation(message),
{
    CoreError::Validation(message)
}

/// The error of a replacement that failed. Denied access is told apart by its
/// code, never by the wording, which depends on the language of the system.
pub fn replace_error(code: i32, message: String) -> (error: CoreError)
    ensures
        error == if code == ACCESS_DENIED {
            CoreError::PermissionDenied
        } else {
            CoreError::Validation(message)
        },
{
    if code == ACCESS_DENIED {
        CoreError::PermissionDenied
    } else {
        windows_error(message)
    }
}

/// The error of a helper that could not be started.
pub fn shell_execute_error(code: i32, message: String) -> (error: CoreError)
    ensures
        error == if code == PROMPT_DISMISSED {
            CoreError::Cancelled
        } else {
            CoreError::Validation(message)
        },
{
    if code == PROMPT_DISMISSED {
        CoreError::Cancelled
    } else {
        windows_error(message)
    }
}

/// The arguments with which the helper is started: the plan's path as it is
/// shown, and the digest that the plan has to have.
pub fn helper_parameters(plan: &str, digest: &[u8; 32]) -> (parameters: String)
    ensures
        parameters@ == "--elevated-helper \""@ + plan@ + "\" "@ + hex(digest@),
{
    let mut parameters = join_three("--elevated-helper \"", plan, "\" ");
    parameters.append(&hex_hash(digest));
    parameters
}

/// What became of a helper that Windows was asked to start: whether there is a
/// process to wait for, whether waiting for it failed, and what came of
/// closing its handle.
pub fn helper_ended(
    has_process: bool,
    wait_failed: bool,
    closed: Result<(), String>,
) -> (outcome: Result<(), CoreError>)
    ensures
        if !has_process {
            outcome == Err::<(), CoreError>(CoreError::Cancelled)
        } else if wait_failed {
            outcome matches Err(CoreError::Validation(message)) && message@
                == "elevated helper wait failed"@
        } else {
            match closed {
                Ok(_) => outcome is Ok,
                Err(message) => outcome == Err::<(), CoreError>(CoreError::Validation(message)),
            }
        },
{
    if !has_process {
        return Err(CoreError::Cancelled);
    }
    if wait_failed {
        return Err(refused("elevated helper wait failed"));
    }
    match closed {
        Ok(_) => Ok(()),
        Err(message) => Err(windows_error(message)),
    }
}

/// The version that a version resource holds in two numbers of 32 bits.
pub fn file_version(high: u32, low: u32) -> (version: DllVersion)
    ensures
        version.major == high / 65536,
        version.minor == high % 65536,
        version.build == low / 65536,
        version.revision == low % 65536,
{
    DllVersion::new(
        (high / 65536) as u16,
        (high % 65536) as u16,
        (low / 65536) as u16,
        (low % 65536) as u16,
    )
}

/// Inspects DLLs with the help of Windows.
#[derive(Clone, Copy, Debug, PartialEq, Eq, Structural)]
pub struct WindowsDllInspector;

impl WindowsDllInspector {
    /// The metadata of a DLL with the given content, whose version resource
    /// and signature Windows has looked at.
    pub fn inspect_bytes(
        &self,
        bytes: &[u8],
        version: Result<Option<DllVersion>, CoreError>,
        trust: Result<TrustReport, CoreError>,
    ) -> (metadata: Result<DllMetadata, CoreError>)
        ensures
            match object_facts(bytes@) {
                Err(wording) => metadata matches Err(CoreError::Validation(message)) && message@
                    == wording,
                Ok(facts) => match (version, trust) {
                    (Err(error), _) => metadata == Err::<DllMetadata, CoreError>(error),
                    (Ok(_), Err(error)) => metadata == Err::<DllMetadata, CoreError>(error),
                    (Ok(version), Ok(trust)) => metadata matches Ok(metadata) && {
                        &&& metadata.version == version
                        &&& metadata.sha256@ == sha256(bytes@)
                        &&& metadata.signature == trust.signature
                        &&& metadata.x86_64 == is_windows_library(facts)
                    },
                },
            },
    {
        let facts = match read_object(bytes) {
            Ok(facts) => facts,
            Err(message) => return Err(CoreError::Validation(message)),
        };
        let version = match version {
            Ok(version) => version,
            Err(error) => return Err(error),
        };
        let trust = match trust {
            Ok(trust) => trust,
            Err(error) => return Err(error),
        };
        Ok(
            DllMetadata {
                version,
                sha256: digest_of(bytes),
                signature: trust.signature,
                x86_64: facts.portable_executable && facts.x86_64 && facts.dynamic,
            },
        )
    }
}

} // verus!
