//! The policy document: the declarative source of truth that requests are
//! evaluated against. Every gate that it exposes is a restriction.
use vstd::prelude::*;

use crate::slate_core::policy::UnlockMode;
use crate::text;

verus! {

/// Schema version of the policy document.
pub const POLICY_SCHEMA_VERSION: u32 = 1;

/// Why a policy document was not accepted.
#[derive(Debug)]
pub enum PolicyError {
    /// The input was not valid JSON or did not have the document's shape.
    Json(String),
    /// The document declares a schema version that cannot be interpreted.
    UnsupportedSchema {
        /// Version found in the document.
        found: u32,
        /// Version that is supported.
        expected: u32,
    },
    /// A field holds a value outside the accepted set.
    InvalidField(String),
}

impl PolicyError {
    /// The text of the error.
    pub open spec fn text(self) -> Seq<char> {
        match self {
            PolicyError::Json(d) => "invalid policy document json: "@ + d@,
            PolicyError::UnsupportedSchema { found, expected } =>
                "unsupported policy schema_version "@ + text::decimal(found as nat)
                    + " (expected "@ + text::decimal(expected as nat) + ")"@,
            PolicyError::InvalidField(d) => "invalid policy field: "@ + d@,
        }
    }

    /// The error as one line of text.
    pub fn message(&self) -> (r: String)
        ensures
            r@ == self.text(),
    {
        match self {
            PolicyError::Json(d) => text::joined("invalid policy document json: ", d.as_str()),
            PolicyError::UnsupportedSchema { found, expected } => {
                let mut out = "unsupported policy schema_version ".to_string();
                out.append(text::decimal_text(*found as u64).as_str());
                out.append(" (expected ");
                out.append(text::decimal_text(*expected as u64).as_str());
                out.append(")");
                out
            },
            PolicyError::InvalidField(d) => text::joined("invalid policy field: ", d.as_str()),
        }
    }
}

/// Storage restrictions.
#[derive(Debug, Clone, PartialEq, Eq)]
pub struct StoragePolicy {
    /// Volumes must be encrypted before keys or data are released.
    pub require_encryption: bool,
    /// When false, the base image must be opened read-only.
    pub allow_read_write_base_image: bool,
}

/// Key release restrictions.
#[derive(Debug, Clone, PartialEq, Eq)]
pub struct KeyReleasePolicy {
    /// Unlock mode that this policy mandates.
    pub mode: String,
    /// Sensitive VMs must present a matching PCR quote.
    pub require_pcr_match_for_sensitive_vms: bool,
}

/// The unlock mode with this name.
pub open spec fn named_mode(name: Seq<char>) -> Option<UnlockMode> {
    if name == "passphrase_only"@ {
        Some(UnlockMode::PassphraseOnly)
    } else if name == "tpm2_pcr_policy"@ {
        Some(UnlockMode::Tpm2PcrPolicy)
    } else if name == "tpm2_pin"@ {
        Some(UnlockMode::Tpm2Pin)
    } else if name == "fido2_hmac_secret"@ {
        Some(UnlockMode::Fido2HmacSecret)
    } else if name == "smartcard_pkcs11"@ {
        Some(UnlockMode::SmartcardPkcs11)
    } else if name == "remote_attested_kms"@ {
        Some(UnlockMode::RemoteAttestedKms)
    } else if name == "threshold_recovery"@ {
        Some(UnlockMode::ThresholdRecovery)
    } else if name == "hybrid_classical_pqc"@ {
        Some(UnlockMode::HybridClassicalPqc)
    } else {
        None
    }
}

impl KeyReleasePolicy {
    /// The unlock mode that [`mode`](Self::mode) names; `None` for a name that
    /// is not known.
    pub fn unlock_mode(&self) -> (r: Option<UnlockMode>)
        ensures
            r == named_mode(self.mode@),
    {
        let name = self.mode.as_str();
        if text::same(name, "passphrase_only") {
            Some(UnlockMode::PassphraseOnly)
        } else if text::same(name, "tpm2_pcr_policy") {
            Some(UnlockMode::Tpm2PcrPolicy)
        } else if text::same(name, "tpm2_pin") {
            Some(UnlockMode::Tpm2Pin)
        } else if text::same(name, "fido2_hmac_secret") {
            Some(UnlockMode::Fido2HmacSecret)
        } else if text::same(name, "smartcard_pkcs11") {
            Some(UnlockMode::SmartcardPkcs11)
        } else if text::same(name, "remote_attested_kms") {
            Some(UnlockMode::RemoteAttestedKms)
        } else if text::same(name, "threshold_recovery") {
            Some(UnlockMode::ThresholdRecovery)
        } else if text::same(name, "hybrid_classical_pqc") {
            Some(UnlockMode::HybridClassicalPqc)
        } else {
            None
        }
    }
}

/// Declarative, deny-by-default policy document.
#[derive(Debug, Clone, PartialEq, Eq)]
pub struct PolicyDocument {
    /// Schema version of this document.
    pub schema_version: u32,
    /// Stable identifier of this policy.
    pub policy_id: String,
    /// Oldest acceptable hypervisor version; older launchers are stale.
    pub minimum_hypervisor_version: u64,
    /// Require a signed boot manifest before launch.
    pub require_signed_manifest: bool,
    /// Require measured boot before launch.
    pub require_measured_boot: bool,
    /// Allow device passthrough to guests.
    pub allow_device_passthrough: bool,
    /// Allow an interactive debug console on guests.
    pub allow_debug_console: bool,
    /// Default network posture: `"deny"` (recommended) or `"allow"`.
    pub network_default: String,
    /// Storage restrictions.
    pub storage: StoragePolicy,
    /// Key release restrictions.
    pub key_release: KeyReleasePolicy,
}

/// A network posture is one of two words.
pub open spec fn known_posture(s: Seq<char>) -> bool {
    s == "deny"@ || s == "allow"@
}

impl PolicyDocument {
    /// The schema is known, the network posture is one of the two words, and
    /// the unlock mode has a known name.
    pub open spec fn acceptable(self) -> bool {
        &&& self.schema_version == POLICY_SCHEMA_VERSION
        &&& known_posture(self.network_default@)
        &&& named_mode(self.key_release.mode@) is Some
    }

    /// What is wrong with a document that is not acceptable. The schema version
    /// is looked at first, then the posture, then the unlock mode.
    pub open spec fn explains(self, e: PolicyError) -> bool {
        if self.schema_version != POLICY_SCHEMA_VERSION {
            e == (PolicyError::UnsupportedSchema {
                found: self.schema_version,
                expected: POLICY_SCHEMA_VERSION,
            })
        } else if !known_posture(self.network_default@) {
            e matches PolicyError::InvalidField(m) && m@
                == "network_default must be \"deny\" or \"allow\", got "@ + text::debug_form(
                self.network_default@,
            )
        } else {
            e matches PolicyError::InvalidField(m) && m@ == "key_release.mode unrecognized: "@
                + text::debug_form(self.key_release.mode@)
        }
    }

    /// What becomes of a document as it was read from JSON: an error of the
    /// reader is passed on, a document that is not acceptable is refused, and an
    /// acceptable one is handed back as it stands.
    pub open spec fn settled(
        parsed: Result<PolicyDocument, String>,
        r: Result<PolicyDocument, PolicyError>,
    ) -> bool {
        match parsed {
            Err(m) => r matches Err(PolicyError::Json(shown)) && shown == m,
            Ok(doc) => match r {
                Ok(accepted) => doc.acceptable() && accepted == doc,
                Err(e) => !doc.acceptable() && doc.explains(e),
            },
        }
    }

    /// Read a document from `s` with `read`, and accept it or fail closed.
    pub fn parse<F: FnOnce(&str) -> Result<PolicyDocument, String>>(s: &str, read: F) -> (r: Result<
        PolicyDocument,
        PolicyError,
    >)
        requires
            call_requires(read, (s,)),
        ensures
            exists|parsed: Result<PolicyDocument, String>|
                call_ensures(read, (s,), parsed) && Self::settled(parsed, r),
    {
        Self::accept(read(s))
    }

    /// Accept a document as it was read from JSON, or fail closed.
    pub fn accept(parsed: Result<PolicyDocument, String>) -> (r: Result<
        PolicyDocument,
        PolicyError,
    >)
        ensures
            Self::settled(parsed, r),
    {
        let doc = match parsed {
            Ok(doc) => doc,
            Err(m) => {
                return Err(PolicyError::Json(m));
            },
        };
        if doc.schema_version != POLICY_SCHEMA_VERSION {
            return Err(
                PolicyError::UnsupportedSchema {
                    found: doc.schema_version,
                    expected: POLICY_SCHEMA_VERSION,
                },
            );
        }
        let posture = doc.network_default.as_str();
        if !text::same(posture, "deny") && !text::same(posture, "allow") {
            let shown = text::debug_text(posture);
            return Err(
                PolicyError::InvalidField(
                    text::joined(
                        "network_default must be \"deny\" or \"allow\", got ",
                        shown.as_str(),
                    ),
                ),
            );
        }
        if doc.key_release.unlock_mode().is_none() {
            let shown = text::debug_text(doc.key_release.mode.as_str());
            return Err(
                PolicyError::InvalidField(
                    text::joined("key_release.mode unrecognized: ", shown.as_str()),
                ),
            );
        }
        Ok(doc)
    }
}

} // verus!
