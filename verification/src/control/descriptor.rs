//! The capsule descriptor: a signed manifest together with what the host needs
//! to run it.
use vstd::prelude::*;

use crate::attest::pcr::PcrBank;
use crate::capsule;
use crate::capsule::{CapsuleError, CapsuleManifest, TrustStore, UntrustedManifest, VerifiedManifest};
use crate::control::error::ControlError;
use crate::text;

verus! {

/// Schema of a capsule descriptor.
pub const CONTROL_CAPSULE_SCHEMA: &'static str = "chain.control.capsule.v1";

/// Boot configuration.
#[derive(Debug, Clone, PartialEq, Eq)]
pub struct BootSpec {
    /// Firmware.
    pub firmware: String,
    /// Kernel command line.
    pub cmdline: String,
    /// Version of the boot policy.
    pub boot_policy_version: u64,
}

/// A virtual disk.
#[derive(Debug, Clone, PartialEq, Eq)]
pub struct VirtualDiskSpec {
    /// Disk.
    pub disk_id: String,
    /// Size in MiB.
    pub size_mb: u64,
    /// Whether it is read-only.
    pub read_only: bool,
}

/// A virtual network interface.
#[derive(Debug, Clone, PartialEq, Eq)]
pub struct VirtualNicSpec {
    /// Interface.
    pub nic_id: String,
    /// Network mode.
    pub mode: String,
}

/// Devices passed through.
#[derive(Debug, Clone, PartialEq, Eq)]
pub struct DeviceAssignmentSpec {
    /// Devices passed through.
    pub passthrough: Vec<String>,
}

/// Launch policy of a capsule.
#[derive(Debug, Clone, PartialEq, Eq)]
pub struct VmPolicy {
    /// Oldest boot policy that the tenant accepts.
    pub tenant_min_boot_policy: u64,
    /// Memory budget in MiB.
    pub memory_budget_mb: u64,
    /// Whether key unwrapping is authorised.
    pub key_unwrap_authorized: bool,
    /// Whether the device policy is satisfied.
    pub device_policy_ok: bool,
    /// Whether boot is measured.
    pub measured_boot: bool,
    /// Whether a debug console is asked for.
    pub requests_debug_console: bool,
}

/// Attested key release plan.
#[derive(Debug, Clone, PartialEq, Eq)]
pub struct KeyReleasePlan {
    /// Device whose key is asked for.
    pub device_id: String,
    /// Hash of the capsule.
    pub capsule_hash: String,
    /// Hash of the boot policy.
    pub boot_policy_hash: String,
    /// Measurements.
    pub pcrs: PcrBank,
    /// Nonce.
    pub nonce: String,
}

/// The document that defines a machine.
#[derive(Debug, Clone)]
pub struct ControlCapsuleSpec {
    /// Schema of this document.
    pub schema: String,
    /// Capsule.
    pub capsule_id: String,
    /// The manifest, as the JSON that it is given in.
    pub manifest: Vec<u8>,
    /// Keys that are trusted to sign the manifest.
    pub allowed_key_ids: Vec<String>,
    /// Boot configuration.
    pub boot: BootSpec,
    /// Disks.
    pub storage: Vec<VirtualDiskSpec>,
    /// Network interfaces.
    pub network: Vec<VirtualNicSpec>,
    /// Devices passed through.
    pub devices: DeviceAssignmentSpec,
    /// Launch policy.
    pub policy: VmPolicy,
    /// Key release plan.
    pub key_plan: KeyReleasePlan,
}

/// A capsule that may be defined: its manifest is verified, and its processors
/// and memory are those of the manifest.
#[derive(Debug)]
pub struct VmCapsule {
    /// Capsule.
    pub capsule_id: String,
    /// The verified manifest.
    pub manifest: VerifiedManifest,
    /// Boot configuration.
    pub boot: BootSpec,
    /// Number of virtual processors.
    pub vcpus: u32,
    /// Memory in MiB.
    pub max_mb: u64,
    /// Disks.
    pub storage: Vec<VirtualDiskSpec>,
    /// Network interfaces.
    pub network: Vec<VirtualNicSpec>,
    /// Devices passed through.
    pub devices: DeviceAssignmentSpec,
    /// Launch policy.
    pub policy: VmPolicy,
    /// Key release plan.
    pub key_plan: KeyReleasePlan,
}

/// A store that trusts exactly the given keys.
fn trust_in(keys: &Vec<String>, version: u64) -> (r: TrustStore)
    ensures
        r.keys() == text::views(keys@).to_set(),
        r.version() == version,
{
    let mut trust = TrustStore::new(version);
    let mut i: usize = 0;
    let ghost all = text::views(keys@);
    assert(all.take(0).to_set() =~= Set::empty());
    while i < keys.len()
        invariant
            i <= keys@.len(),
            all == text::views(keys@),
            trust.keys() == all.take(i as int).to_set(),
            trust.version() == version,
        decreases keys@.len() - i,
    {
        let ghost before = all.take(i as int);
        let ghost after = all.take(i + 1);
        trust = trust.trust_key(keys[i].as_str());
        assert(after =~= before.push(keys@[i as int]@));
        assert(after.to_set() =~= before.to_set().insert(keys@[i as int]@)) by {
            assert forall|k: Seq<char>|
                after.to_set().contains(k) == before.to_set().insert(keys@[i as int]@).contains(
                    k,
                ) by {
                if before.contains(k) {
                    let j = choose|j: int| 0 <= j < before.len() && before[j] == k;
                    assert(after[j] == k);
                }
                if k == keys@[i as int]@ {
                    assert(after[i as int] == k);
                }
            }
        }
        i = i + 1;
    }
    assert(all.take(i as int) =~= all);
    trust
}

impl ControlCapsuleSpec {
    /// The keys that are trusted to sign.
    pub open spec fn trusted(self) -> Set<Seq<char>> {
        text::views(self.allowed_key_ids@).to_set()
    }

    /// `c` is this capsule, with manifest `m` verified.
    pub open spec fn assembles(self, m: CapsuleManifest, c: VmCapsule) -> bool {
        &&& c.capsule_id == self.capsule_id
        &&& c.manifest.contents() == m
        &&& Some(c.manifest.status()) == capsule::status_of(m.signatures@, self.trusted())
        &&& c.boot == self.boot
        &&& c.vcpus == m.cpu.vcpus
        &&& c.max_mb == m.memory.max_mb
        &&& c.storage == self.storage
        &&& c.network == self.network
        &&& c.devices == self.devices
        &&& c.policy == self.policy
        &&& c.key_plan == self.key_plan
    }

    /// The manifest's boot policy is older than the tenant accepts.
    pub open spec fn below_floor(self, m: CapsuleManifest) -> bool {
        m.boot_policy_version < self.policy.tenant_min_boot_policy
    }

    /// What becomes of a descriptor with the expected schema whose manifest was
    /// read as `parsed`: the manifest's schema is looked at, then it is verified
    /// under the allowed keys, then its boot policy is held against the tenant's
    /// minimum.
    pub open spec fn settled(
        self,
        version: u64,
        parsed: Result<CapsuleManifest, String>,
        r: Result<VmCapsule, ControlError>,
    ) -> bool {
        match parsed {
            Err(e) => r == Err::<VmCapsule, ControlError>(
                ControlError::Capsule(CapsuleError::Parse(e)),
            ),
            Ok(m) => if m.schema@ != capsule::CAPSULE_SCHEMA@ {
                r == Err::<VmCapsule, ControlError>(
                    ControlError::Capsule(CapsuleError::BadSchema(m.schema)),
                )
            } else {
                match r {
                    Ok(c) => {
                        &&& capsule::verifies(m, self.trusted(), version, None, None)
                        &&& !self.below_floor(m)
                        &&& self.assembles(m, c)
                    },
                    Err(e) => e matches ControlError::Capsule(why) && if !capsule::verifies(
                        m,
                        self.trusted(),
                        version,
                        None,
                        None,
                    ) {
                        capsule::refusal(m, self.trusted(), version, None, None, why)
                    } else {
                        self.below_floor(m) && why == (CapsuleError::BootPolicyTooOld {
                            have: m.boot_policy_version,
                            need: self.policy.tenant_min_boot_policy,
                        })
                    },
                }
            },
        }
    }

    /// Verify the manifest, read with `read`, and assemble the capsule. Fails
    /// closed: an unsigned or untrusted manifest gives no capsule, and neither
    /// does one whose boot policy is below the tenant's minimum.
    pub fn into_capsule<F: FnOnce(&[u8]) -> Result<CapsuleManifest, String>>(
        self,
        min_hypervisor_version: u64,
        read: F,
    ) -> (r: Result<VmCapsule, ControlError>)
        requires
            forall|b: &[u8]| b@ == self.manifest@ ==> call_requires(read, (b,)),
        ensures
            self.assembled(min_hypervisor_version, read, r),
    {
        if !text::same(self.schema.as_str(), CONTROL_CAPSULE_SCHEMA) {
            return Err(
                ControlError::Schema {
                    expected: CONTROL_CAPSULE_SCHEMA.to_string(),
                    got: self.schema,
                },
            );
        }
        let bytes = self.manifest.as_slice();
        let untrusted = match UntrustedManifest::parse(bytes, read) {
            Ok(u) => u,
            Err(e) => {
                proof {
                    if bytes@.len() <= capsule::MAX_MANIFEST_BYTES {
                        let parsed = choose|parsed: Result<CapsuleManifest, String>|
                            call_ensures(read, (bytes,), parsed) && UntrustedManifest::settled(
                                parsed,
                                Err::<UntrustedManifest, CapsuleError>(e),
                            );
                        assert(call_ensures(read, (bytes,), parsed));
                        assert(self.settled(
                            min_hypervisor_version,
                            parsed,
                            Err::<VmCapsule, ControlError>(ControlError::Capsule(e)),
                        ));
                    }
                }
                return Err(ControlError::Capsule(e));
            },
        };
        let ghost m = untrusted.contents();
        let ghost parsed = choose|parsed: Result<CapsuleManifest, String>|
            call_ensures(read, (bytes,), parsed) && UntrustedManifest::settled(
                parsed,
                Ok::<UntrustedManifest, CapsuleError>(untrusted),
            );
        assert(call_ensures(read, (bytes,), parsed) && parsed == Ok::<CapsuleManifest, String>(m));
        let trust = trust_in(&self.allowed_key_ids, min_hypervisor_version);
        let verified = match untrusted.verify(&trust, None, None) {
            Ok(v) => v,
            Err(e) => {
                assert(self.settled(
                    min_hypervisor_version,
                    parsed,
                    Err::<VmCapsule, ControlError>(ControlError::Capsule(e)),
                ));
                return Err(ControlError::Capsule(e));
            },
        };
        let have: u64 = verified.manifest().boot_policy_version;
        let need: u64 = self.policy.tenant_min_boot_policy;
        if have < need {
            let e = CapsuleError::BootPolicyTooOld { have, need };
            assert(self.settled(
                min_hypervisor_version,
                parsed,
                Err::<VmCapsule, ControlError>(ControlError::Capsule(e)),
            ));
            return Err(ControlError::Capsule(e));
        }
        let vcpus: u32 = verified.manifest().cpu.vcpus;
        let max_mb: u64 = verified.manifest().memory.max_mb;
        let capsule = VmCapsule {
            capsule_id: self.capsule_id,
            manifest: verified,
            boot: self.boot,
            vcpus,
            max_mb,
            storage: self.storage,
            network: self.network,
            devices: self.devices,
            policy: self.policy,
            key_plan: self.key_plan,
        };
        assert(self.settled(
            min_hypervisor_version,
            parsed,
            Ok::<VmCapsule, ControlError>(capsule),
        ));
        Ok(capsule)
    }

    /// What becomes of a descriptor: another schema is refused, then a manifest
    /// over the bound, then `read` is asked and its answer is settled.
    pub open spec fn assembled<F: FnOnce(&[u8]) -> Result<CapsuleManifest, String>>(
        self,
        version: u64,
        read: F,
        r: Result<VmCapsule, ControlError>,
    ) -> bool {
        if self.schema@ != CONTROL_CAPSULE_SCHEMA@ {
            r matches Err(ControlError::Schema { expected, got }) && expected@
                == CONTROL_CAPSULE_SCHEMA@ && got == self.schema
        } else if self.manifest@.len() > capsule::MAX_MANIFEST_BYTES {
            r == Err::<VmCapsule, ControlError>(
                ControlError::Capsule(CapsuleError::TooLarge(self.manifest@.len() as usize)),
            )
        } else {
            exists|b: &[u8], parsed: Result<CapsuleManifest, String>|
                b@ == self.manifest@ && #[trigger] call_ensures(read, (b,), parsed)
                    && self.settled(version, parsed, r)
        }
    }
}

// ------------------------------------------------------------------- laws

/// A capsule is assembled only around a manifest that one of the allowed keys
/// signed, that the hypervisor is recent enough for, and whose boot policy the
/// tenant accepts.
pub proof fn assembled_is_verified<F: FnOnce(&[u8]) -> Result<CapsuleManifest, String>>(
    spec: ControlCapsuleSpec,
    version: u64,
    read: F,
    c: VmCapsule,
)
    requires
        spec.assembled(version, read, Ok(c)),
    ensures
        exists|i: int|
            capsule::trusted_at(c.manifest.contents().signatures@, spec.trusted(), i),
        c.manifest.contents().hypervisor_min_version <= version,
        spec.policy.tenant_min_boot_policy <= c.manifest.contents().boot_policy_version,
        c.manifest.contents().schema@ == capsule::CAPSULE_SCHEMA@,
{
    let (b, parsed) = choose|b: &[u8], parsed: Result<CapsuleManifest, String>|
        b@ == spec.manifest@ && #[trigger] call_ensures(read, (b,), parsed) && spec.settled(
            version,
            parsed,
            Ok(c),
        );
    assert(spec.settled(version, parsed, Ok(c)));
    capsule::verified_has_trusted_signer(parsed->Ok_0, spec.trusted(), version, None, None);
}

} // verus!
