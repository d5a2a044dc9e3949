//! Unlock modes and decisions.
use vstd::prelude::*;

verus! {

/// How a volume may be unlocked.
#[derive(Debug, Clone, Copy, PartialEq, Eq, Structural)]
pub enum UnlockMode {
    /// A passphrase alone.
    PassphraseOnly,
    /// Sealed to platform configuration registers.
    Tpm2PcrPolicy,
    /// Sealed, with a PIN.
    Tpm2Pin,
    /// A FIDO2 token.
    Fido2HmacSecret,
    /// A smart card.
    SmartcardPkcs11,
    /// A key service that asks for attestation.
    RemoteAttestedKms,
    /// A quorum of shares.
    ThresholdRecovery,
    /// A classical and a post-quantum leg together.
    HybridClassicalPqc,
}

/// What a policy decides.
#[derive(Debug, Clone, Copy, PartialEq, Eq, Structural)]
pub enum PolicyDecision {
    /// Permitted.
    Allow,
    /// Refused.
    Deny,
    /// Only through recovery.
    RequireRecovery,
    /// Only after a person approves.
    RequireHumanApproval,
}

} // verus!
