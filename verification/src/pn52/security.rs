//! Security state named in a report.
use vstd::prelude::*;

use crate::lines;
use crate::text;

verus! {

/// Security state of a machine.
#[derive(Debug, Clone, PartialEq, Eq)]
pub struct Pn52SecurityReport {
    /// Secure Boot.
    pub secure_boot: SecureBootState,
    /// Whether there is a firmware TPM.
    pub ftpm_present: bool,
    /// Banks of platform configuration registers.
    pub pcr_banks: Vec<String>,
    /// Whether the flash is write-protected, where that is known.
    pub spi_write_protected: Option<bool>,
    /// Whether platform secure boot is fused, where that is known.
    pub amd_psb_fused: Option<bool>,
}

/// State of Secure Boot.
#[derive(Debug, Clone, PartialEq, Eq, Structural)]
pub enum SecureBootState {
    /// Enforced.
    Enabled,
    /// Off.
    Disabled,
    /// Keys can be enrolled.
    SetupMode,
    /// Not known.
    Unknown,
}

/// What a report says of Secure Boot, in any case of letters. A report that
/// says both is taken at its better word.
pub open spec fn secure_boot_in(report: Seq<char>) -> SecureBootState {
    let lower = text::lower(report);
    if lines::has_text(lower, "secureboot enabled"@) {
        SecureBootState::Enabled
    } else if lines::has_text(lower, "secureboot disabled"@) {
        SecureBootState::Disabled
    } else {
        SecureBootState::Unknown
    }
}

/// What a report says of Secure Boot.
pub fn parse_mokutil_state(text: &str) -> (r: SecureBootState)
    ensures
        r == secure_boot_in(text@),
{
    let lower = text::lower_text(text);
    if lines::contains_text(lower.as_str(), "secureboot enabled") {
        SecureBootState::Enabled
    } else if lines::contains_text(lower.as_str(), "secureboot disabled") {
        SecureBootState::Disabled
    } else {
        SecureBootState::Unknown
    }
}

} // verus!
