//! What a volume asks of the boot before it may be unlocked.
use vstd::prelude::*;

verus! {

/// Boot state that a volume requires.
#[derive(Debug, Clone, PartialEq, Eq)]
pub struct AttestationPolicy {
    /// Platform configuration registers that must match.
    pub required_pcrs: &'static [u8],
    /// Oldest boot policy that may unlock.
    pub minimum_boot_policy_version: u64,
    /// Whether Secure Boot is required.
    pub require_secure_boot: bool,
}

/// The policy of the lab: three registers, any boot policy, Secure Boot off.
pub fn lab_policy() -> (r: AttestationPolicy)
    ensures
        r.required_pcrs@ == seq![0u8, 7u8, 11u8],
        r.minimum_boot_policy_version == 1,
        !r.require_secure_boot,
{
    AttestationPolicy {
        required_pcrs: &[0u8, 7u8, 11u8],
        minimum_boot_policy_version: 1,
        require_secure_boot: false,
    }
}

} // verus!
