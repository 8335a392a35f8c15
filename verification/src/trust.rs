//! Deciding whether a signature is to be trusted.

use crate::model::SignatureStatus;
use crate::text::same_folded;
use vstd::prelude::*;

verus! {

/// How strict a signature check is.
#[derive(Clone, Copy, Debug, PartialEq, Eq, Structural)]
pub enum TrustPolicy {
    /// Revocation has to be checked.
    Strict,
    /// For DLLs of an official release archive: when the revocation servers
    /// are out of reach, a signature by NVIDIA is accepted without them.
    OfficialNvidiaCatalog,
}

/// What is known about the revocation of a signature.
#[derive(Clone, Copy, Debug, PartialEq, Eq, Structural)]
pub enum RevocationStatus {
    Verified,
    NotVerified,
    UnavailableFallback,
}

/// The status code of a failed check, with the platform's words for it.
#[derive(Debug, PartialEq, Eq)]
pub struct NativeTrustFailure {
    pub status: i32,
    pub reason: String,
}

impl Clone for NativeTrustFailure {
    fn clone(&self) -> (copy: NativeTrustFailure)
        ensures
            copy == *self,
    {
        NativeTrustFailure { status: self.status, reason: self.reason.clone() }
    }
}

/// The outcome of a signature check.
#[derive(Debug, PartialEq, Eq)]
pub struct TrustReport {
    pub signature: SignatureStatus,
    pub signer: Option<String>,
    pub revocation: RevocationStatus,
    pub native_failure: Option<NativeTrustFailure>,
}

impl Clone for TrustReport {
    fn clone(&self) -> (copy: TrustReport)
        ensures
            copy == *self,
    {
        TrustReport {
            signature: self.signature,
            signer: match &self.signer {
                Some(signer) => Some(signer.clone()),
                None => None,
            },
            revocation: self.revocation,
            native_failure: match &self.native_failure {
                Some(failure) => Some(failure.clone()),
                None => None,
            },
        }
    }
}

/// What the platform said about one check: its status code, the signer it
/// found, and its words for the status.
#[derive(Debug, PartialEq, Eq)]
pub struct NativeTrustResult {
    pub status: i32,
    pub signer: Option<String>,
    pub reason: String,
}

/// `TRUST_E_NOSIGNATURE` (0x800B0100): the file carries no signature.
pub const NO_SIGNATURE: i32 = -2146762496;

/// `CRYPT_E_REVOCATION_OFFLINE` (0x80092013): no revocation server answered.
pub const REVOCATION_OFFLINE: i32 = -2146885613;

/// `CERT_E_REVOCATION_FAILURE` (0x800B010E): revocation could not be checked.
pub const REVOCATION_FAILURE: i32 = -2146762482;

/// The name under which NVIDIA signs.
pub open spec fn signed_by_nvidia(subject: Seq<char>) -> bool {
    crate::text::ascii_folded(subject) == crate::text::ascii_folded("NVIDIA Corporation"@)
}

/// Whether `subject` is NVIDIA, whatever the case of its letters.
pub fn is_nvidia_signer(subject: &str) -> (nvidia: bool)
    ensures
        nvidia == signed_by_nvidia(subject@),
{
    same_folded(subject, "NVIDIA Corporation")
}

/// Whether a signer is known and is NVIDIA.
pub open spec fn nvidia_signature(signer: Option<String>) -> bool {
    signer matches Some(subject) && signed_by_nvidia(subject@)
}

/// Decides [`nvidia_signature`].
pub fn is_nvidia_signature(signer: &Option<String>) -> (nvidia: bool)
    ensures
        nvidia == nvidia_signature(*signer),
{
    match signer {
        Some(subject) => is_nvidia_signer(subject),
        None => false,
    }
}

/// What a status code says about a signature.
pub open spec fn status_meaning(status: i32) -> SignatureStatus {
    if status == 0 {
        SignatureStatus::Trusted
    } else if status == NO_SIGNATURE {
        SignatureStatus::Unsigned
    } else {
        SignatureStatus::Untrusted
    }
}

/// What a status code says about a signature.
pub fn signature_status(status: i32) -> (meaning: SignatureStatus)
    ensures
        meaning == status_meaning(status),
{
    if status == 0 {
        SignatureStatus::Trusted
    } else if status == NO_SIGNATURE {
        SignatureStatus::Unsigned
    } else {
        SignatureStatus::Untrusted
    }
}

/// Whether a status code says only that revocation could not be checked.
pub open spec fn is_revocation_gap(status: i32) -> bool {
    status == REVOCATION_OFFLINE || status == REVOCATION_FAILURE
}

/// Decides [`is_revocation_gap`].
pub fn revocation_unavailable(status: i32) -> (unavailable: bool)
    ensures
        unavailable == is_revocation_gap(status),
{
    status == REVOCATION_OFFLINE || status == REVOCATION_FAILURE
}

/// Whether a second check, without revocation, is to be made after a strict
/// check ended in `status`.
pub fn needs_fallback(policy: TrustPolicy, status: i32) -> (needed: bool)
    ensures
        needed == (policy == TrustPolicy::OfficialNvidiaCatalog && is_revocation_gap(status)),
{
    match policy {
        TrustPolicy::OfficialNvidiaCatalog => revocation_unavailable(status),
        TrustPolicy::Strict => false,
    }
}

/// The meaning of [`resolve_trust`].
pub open spec fn trust_outcome(
    policy: TrustPolicy,
    strict: NativeTrustResult,
    fallback: Option<NativeTrustResult>,
) -> TrustReport {
    let failure = Some(NativeTrustFailure { status: strict.status, reason: strict.reason });
    if strict.status == 0 {
        TrustReport {
            signature: SignatureStatus::Trusted,
            signer: strict.signer,
            revocation: RevocationStatus::Verified,
            native_failure: None,
        }
    } else if policy == TrustPolicy::OfficialNvidiaCatalog && is_revocation_gap(strict.status)
        && fallback is Some {
        let second = fallback->0;
        TrustReport {
            signature: status_meaning(second.status),
            signer: second.signer,
            revocation: if second.status == 0 && nvidia_signature(second.signer) {
                RevocationStatus::UnavailableFallback
            } else {
                RevocationStatus::NotVerified
            },
            native_failure: failure,
        }
    } else {
        TrustReport {
            signature: status_meaning(strict.status),
            signer: strict.signer,
            revocation: RevocationStatus::NotVerified,
            native_failure: failure,
        }
    }
}

/// Combines the strict check with the one that was made without revocation.
pub fn resolve_trust(
    policy: TrustPolicy,
    strict: NativeTrustResult,
    fallback: Option<NativeTrustResult>,
) -> (report: TrustReport)
    ensures
        report == trust_outcome(policy, strict, fallback),
{
    if strict.status == 0 {
        return TrustReport {
            signature: SignatureStatus::Trusted,
            signer: strict.signer,
            revocation: RevocationStatus::Verified,
            native_failure: None,
        };
    }
    let status: i32 = strict.status;
    let failure = Some(NativeTrustFailure { status, reason: strict.reason });
    if needs_fallback(policy, status) {
        if let Some(second) = fallback {
            let revocation = if second.status == 0 && is_nvidia_signature(&second.signer) {
                RevocationStatus::UnavailableFallback
            } else {
                RevocationStatus::NotVerified
            };
            return TrustReport {
                signature: signature_status(second.status),
                signer: second.signer,
                revocation,
                native_failure: failure,
            };
        }
    }
    TrustReport {
        signature: signature_status(status),
        signer: strict.signer,
        revocation: RevocationStatus::NotVerified,
        native_failure: failure,
    }
}

/// Revocation may only be skipped for an official NVIDIA DLL whose strict check
/// failed for nothing but the missing revocation servers.
pub proof fn fallback_needs_an_offline_official_nvidia_dll(
    policy: TrustPolicy,
    strict: NativeTrustResult,
    fallback: Option<NativeTrustResult>,
)
    requires
        trust_outcome(policy, strict, fallback).revocation == RevocationStatus::UnavailableFallback,
    ensures
        policy == TrustPolicy::OfficialNvidiaCatalog,
        is_revocation_gap(strict.status),
        trust_outcome(policy, strict, fallback).signature == SignatureStatus::Trusted,
        nvidia_signature(trust_outcome(policy, strict, fallback).signer),
{
}

/// Under the strict policy, and after any failure other than a missing
/// revocation server, a file is trusted only if the strict check succeeded.
pub proof fn other_failures_are_final(
    policy: TrustPolicy,
    strict: NativeTrustResult,
    fallback: Option<NativeTrustResult>,
)
    requires
        policy == TrustPolicy::Strict || !is_revocation_gap(strict.status),
    ensures
        trust_outcome(policy, strict, fallback).signature == status_meaning(strict.status),
        trust_outcome(policy, strict, fallback).signature == SignatureStatus::Trusted
            <==> strict.status == 0,
        trust_outcome(policy, strict, fallback).revocation == RevocationStatus::Verified
            <==> strict.status == 0,
{
}

/// The name of NVIDIA is recognized however its letters are capitalized, and
/// no other name is.
pub proof fn nvidia_signs_by_its_name(subject: Seq<char>)
    ensures
        signed_by_nvidia(subject) <==> crate::text::spells(subject, "nvidia corporation"@),
{
    reveal_strlit("NVIDIA Corporation");
    reveal_strlit("nvidia corporation");
    assert(crate::text::ascii_folded("NVIDIA Corporation"@) =~= "nvidia corporation"@);
    crate::text::folded_words_are_spelled(subject, "nvidia corporation"@);
}

/// Which check decides, and what it says. The strict check decides if it
/// passed, or failed for another reason than that revocation could not be
/// checked, or if the policy asks for revocation; the second check decides
/// otherwise, where there was one. Status 0 is trust, the code for a missing
/// signature says that there is none, and every other code is distrust. What
/// the strict check failed for is always told.
pub proof fn reports_go_by_the_deciding_check(
    policy: TrustPolicy,
    strict: NativeTrustResult,
    fallback: Option<NativeTrustResult>,
)
    ensures
        ({
            let report = trust_outcome(policy, strict, fallback);
            let deciding = if policy == TrustPolicy::OfficialNvidiaCatalog && (strict.status
                == -2146885613 || strict.status == -2146762482) && fallback is Some {
                fallback->0
            } else {
                strict
            };
            &&& report.signer == deciding.signer
            &&& report.signature == SignatureStatus::Trusted <==> deciding.status == 0
            &&& report.signature == SignatureStatus::Unsigned <==> deciding.status == -2146762496
            &&& strict.status == 0 ==> report.native_failure is None
            &&& strict.status != 0 ==> (report.native_failure matches Some(failure)
                && failure.status == strict.status && failure.reason == strict.reason)
            &&& report.revocation == RevocationStatus::Verified <==> strict.status == 0
            &&& report.revocation == RevocationStatus::UnavailableFallback <==> strict.status != 0
                && deciding.status == 0 && (deciding.signer matches Some(subject)
                && crate::text::spells(subject@, "nvidia corporation"@))
        }),
{
    if let Some(second) = fallback {
        if let Some(subject) = second.signer {
            nvidia_signs_by_its_name(subject@);
        }
    }
    if let Some(subject) = strict.signer {
        nvidia_signs_by_its_name(subject@);
    }
}

} // verus!
