//! The vocabulary in which state machines ask for work on files.

use crate::model::DllMetadata;
use crate::paths::FilePath;
use crate::traits::CoreError;
use crate::trust::{TrustPolicy, TrustReport};
use vstd::prelude::*;

verus! {

/// Work on a file.
#[derive(Debug, PartialEq, Eq)]
pub enum FileAction {
    /// Read the metadata of a DLL; answered by [`FileReply::Inspected`].
    Inspect { path: FilePath },
    /// Check the signature of a DLL; answered by [`FileReply::Verified`].
    Verify { path: FilePath, policy: TrustPolicy },
    /// Measure a file; answered by [`FileReply::Measured`].
    Measure { path: FilePath },
    /// Compute the digest of a file; answered by [`FileReply::Hashed`].
    Hash { path: FilePath },
    /// Look whether a file is there; answered by [`FileReply::Found`].
    Look { path: FilePath },
    /// Create a directory and those above it; answered by [`FileReply::Done`].
    CreateDirectory { path: FilePath },
    /// Copy a file to a new one, flush it, and check that what was copied has
    /// the digest `sha256`; answered by [`FileReply::Done`].
    Copy { from: FilePath, to: FilePath, sha256: [u8; 32] },
    /// Copy a file to a new one and flush it; answered by [`FileReply::Done`].
    Duplicate { from: FilePath, to: FilePath },
    /// Find out where a path really leads; answered by [`FileReply::Resolved`].
    Resolve { path: FilePath },
    /// Rename a file; answered by [`FileReply::Done`].
    Rename { from: FilePath, to: FilePath },
    /// Delete a file; answered by [`FileReply::Done`].
    Remove { path: FilePath },
    /// Delete a directory with all that is in it; answered by
    /// [`FileReply::Done`].
    RemoveTree { path: FilePath },
}

/// What came of it.
#[derive(Debug, PartialEq, Eq)]
pub enum FileReply {
    Inspected(Result<DllMetadata, CoreError>),
    Verified(Result<TrustReport, CoreError>),
    Measured(Result<u64, CoreError>),
    Hashed(Result<[u8; 32], CoreError>),
    Found(bool),
    Resolved(Result<FilePath, CoreError>),
    Done(Result<(), CoreError>),
}

/// The outcome of comparing the digest of a copy with the expected one.
pub fn check_copy(copied: &[u8; 32], expected: &[u8; 32]) -> (result: Result<(), CoreError>)
    ensures
        result is Ok <==> *copied == *expected,
        result matches Err(error) ==> (error matches CoreError::Validation(message) && message@
            == "copy hash mismatch"@),
{
    if crate::digest::same_hash(copied, expected) {
        Ok(())
    } else {
        Err(crate::traits::refused("copy hash mismatch"))
    }
}

/// The outcome of comparing the schema version of a stored file with the
/// version that this program writes.
pub fn check_schema(found: u32, expected: u32) -> (result: Result<(), CoreError>)
    ensures
        result is Ok <==> found == expected,
        result matches Err(error) ==> (error matches CoreError::Validation(message) && message@
            == "unsupported schema version "@ + crate::text::decimal(found as nat)),
{
    if found == expected {
        Ok(())
    } else {
        let number = crate::text::decimal_text(found as u64);
        Err(CoreError::Validation(crate::text::join_two("unsupported schema version ", &number)))
    }
}

/// A document as it is kept in a file: what it holds, and the version of its
/// format.
#[derive(Debug, PartialEq, Eq)]
pub struct Envelope<T> {
    pub schema_version: u32,
    pub payload: T,
}

/// Whether `found` is what a file comes to whose format should have the version
/// `expected`.
pub open spec fn is_unsealed<T>(
    read: Result<Envelope<T>, CoreError>,
    expected: u32,
    found: Result<T, CoreError>,
) -> bool {
    match read {
        Err(error) => found == Err::<T, CoreError>(error),
        Ok(envelope) => if envelope.schema_version == expected {
            found == Ok::<T, CoreError>(envelope.payload)
        } else {
            found matches Err(CoreError::Validation(message)) && message@
                == "unsupported schema version "@ + crate::text::decimal(
                envelope.schema_version as nat,
            )
        },
    }
}

/// What a file comes to whose format should have the version `expected`.
pub fn unseal<T>(read: Result<Envelope<T>, CoreError>, expected: u32) -> (found: Result<
    T,
    CoreError,
>)
    ensures
        is_unsealed(read, expected, found),
{
    match read {
        Err(error) => Err(error),
        Ok(envelope) => match check_schema(envelope.schema_version, expected) {
            Ok(_) => Ok(envelope.payload),
            Err(error) => Err(error),
        },
    }
}

} // verus!
