//! What can be told of a DLL on any platform: its architecture and its digest.

use crate::digest::{digest_of, sha256};
use crate::model::{DllMetadata, SignatureStatus};
use crate::paths::FilePath;
use crate::traits::{CoreError, TrustVerifier};
use crate::trust::{RevocationStatus, TrustPolicy, TrustReport};
use object::Object;
use vstd::prelude::*;

verus! {

/// What the headers of an object file say.
#[derive(Clone, Copy, Debug, PartialEq, Eq, Structural)]
pub struct ObjectFacts {
    /// The file is a Windows image.
    pub portable_executable: bool,
    /// Its code is for x86-64.
    pub x86_64: bool,
    /// It is a dynamic library.
    pub dynamic: bool,
}

/// The facts that the headers of an object file state, or why they cannot be
/// read.
pub uninterp spec fn object_facts(bytes: Seq<u8>) -> Result<ObjectFacts, Seq<char>>;

/// `object::File::parse` reads the headers of an object file; its `format`,
/// `architecture` and `kind` then tell what they say. What is claimed is only
/// that the bytes alone decide both the facts and the wording of an error.
#[verifier::external_body]
pub(crate) fn read_object(bytes: &[u8]) -> (facts: Result<ObjectFacts, String>)
    ensures
        match facts {
            Ok(facts) => object_facts(bytes@) == Ok::<ObjectFacts, Seq<char>>(facts),
            Err(message) => object_facts(bytes@) == Err::<ObjectFacts, Seq<char>>(message@),
        },
{
    match object::File::parse(bytes) {
        Ok(file) => Ok(ObjectFacts {
            portable_executable: matches!(file.format(), object::BinaryFormat::Pe),
            x86_64: matches!(file.architecture(), object::Architecture::X86_64),
            dynamic: matches!(file.kind(), object::ObjectKind::Dynamic),
        }),
        Err(error) => Err(error.to_string()),
    }
}

/// Whether an object file is a dynamic library for 64-bit Windows.
pub open spec fn is_windows_library(facts: ObjectFacts) -> bool {
    facts.portable_executable && facts.x86_64 && facts.dynamic
}

/// The metadata of a DLL with these headers and this digest. The version
/// resource is not read and the signature is not checked.
pub fn portable_metadata(facts: Result<ObjectFacts, String>, sha256: [u8; 32]) -> (metadata: Result<
    DllMetadata,
    CoreError,
>)
    ensures
        metadata == match facts {
            Ok(facts) => Ok(
                DllMetadata {
                    version: None,
                    sha256,
                    signature: SignatureStatus::Unavailable,
                    x86_64: is_windows_library(facts),
                },
            ),
            Err(message) => Err(CoreError::Validation(message)),
        },
{
    match facts {
        Ok(facts) => Ok(
            DllMetadata {
                version: None,
                sha256,
                signature: SignatureStatus::Unavailable,
                x86_64: facts.portable_executable && facts.x86_64 && facts.dynamic,
            },
        ),
        Err(message) => Err(CoreError::Validation(message)),
    }
}

/// Inspects DLLs without the help of the operating system.
#[derive(Clone, Copy, Debug, PartialEq, Eq, Structural)]
pub struct PortablePeInspector;

impl PortablePeInspector {
    /// The metadata of a DLL with the given content.
    pub fn inspect_bytes(&self, bytes: &[u8]) -> (metadata: Result<DllMetadata, CoreError>)
        ensures
            match object_facts(bytes@) {
                Ok(facts) => metadata matches Ok(metadata) && {
                    &&& metadata.version is None
                    &&& metadata.sha256@ == sha256(bytes@)
                    &&& metadata.signature == SignatureStatus::Unavailable
                    &&& metadata.x86_64 == is_windows_library(facts)
                },
                Err(wording) => metadata matches Err(CoreError::Validation(message)) && message@
                    == wording,
            },
    {
        portable_metadata(read_object(bytes), digest_of(bytes))
    }
}

/// Stands in where signatures cannot be checked.
#[derive(Clone, Copy, Debug, PartialEq, Eq, Structural)]
pub struct UnavailableTrustVerifier;

impl TrustVerifier for UnavailableTrustVerifier {
    fn verify(&self, _path: &FilePath, _policy: TrustPolicy) -> (report: Result<
        TrustReport,
        CoreError,
    >)
        ensures
            report == Ok::<TrustReport, CoreError>(
                TrustReport {
                    signature: SignatureStatus::Unavailable,
                    signer: None,
                    revocation: RevocationStatus::NotVerified,
                    native_failure: None,
                },
            ),
    {
        Ok(
            TrustReport {
                signature: SignatureStatus::Unavailable,
                signer: None,
                revocation: RevocationStatus::NotVerified,
                native_failure: None,
            },
        )
    }
}

/// Without the operating system, what is known of a DLL is its digest and
/// whether it is a dynamic library for 64-bit Windows: all of the three that
/// make it one are needed. No version and no signature is claimed.
pub proof fn headers_decide_what_is_a_library(facts: ObjectFacts)
    ensures
        is_windows_library(facts) ==> facts.portable_executable && facts.x86_64 && facts.dynamic,
        !is_windows_library(facts) ==> !facts.portable_executable || !facts.x86_64
            || !facts.dynamic,
{
}

} // verus!
