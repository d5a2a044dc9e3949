//! Volume provisioning: an unsigned manifest from a cipher profile and a hybrid
//! suite, ready to be signed.
//!
//! Nothing here reads a clock: timestamps are given.
use vstd::prelude::*;

use crate::qrse::combiner::KemSuite;
use crate::qrse::keyslot::{Keyslot, KeyslotKind, KeyslotStatus, KmsAttestation};
use crate::qrse::manifest::{
    Audit, BootPolicy, ManifestKeyHierarchy, QrsdManifest, RollbackProtection, QRSD_FORMAT,
};
use crate::storage::attestation::{lab_policy, AttestationPolicy};
use crate::storage::luks::{default_argon2id_params, Argon2idParams, Luks2Profile, LuksError};
use crate::text;

verus! {

/// Plan of an unsigned volume manifest.
#[derive(Debug, Clone)]
pub struct VolumeProvisioning {
    /// Volume.
    pub volume_id: String,
    /// Creation time, as given.
    pub created_at: String,
    /// Cipher profile.
    pub profile: Luks2Profile,
    /// Hybrid suite.
    pub suite: KemSuite,
    /// Boot state that the volume requires.
    pub attestation: AttestationPolicy,
    /// Boot policy.
    pub boot_policy_id: String,
    /// Measurement policy of the remote slot.
    pub measurement_policy_ref: String,
    /// Execution environments that the remote slot accepts.
    pub accepted_tee: Vec<String>,
    /// Cost of the passphrase slot.
    pub argon2id: Argon2idParams,
    /// Where the passphrase slot's wrapped key is kept.
    pub wrapped_key_ref: String,
    /// Version of the volume master key.
    pub vmk_version: u64,
    /// Version of the data key.
    pub dek_version: u64,
    /// Oldest boot manifest that may boot.
    pub min_boot_manifest_version: u64,
    /// Audit anchor.
    pub audit: Audit,
}

/// The name of a register in a boot policy.
pub open spec fn pcr_name(pcr: u8) -> Seq<char> {
    "pcr"@ + text::decimal(pcr as nat)
}

impl VolumeProvisioning {
    /// A plan with the lab's defaults.
    pub fn new(volume_id: &str, created_at: &str, profile: Luks2Profile, suite: KemSuite) -> (r: Self)
        ensures
            r.volume_id@ == volume_id@,
            r.created_at@ == created_at@,
            r.profile == profile,
            r.suite == suite,
            r.attestation.required_pcrs@ == seq![0u8, 7u8, 11u8],
            r.attestation.minimum_boot_policy_version == 1,
            !r.attestation.require_secure_boot,
            r.boot_policy_id@ == "pol-boot-v1"@,
            r.measurement_policy_ref@ == "pol-meas-v1"@,
            text::views(r.accepted_tee@) == seq!["amd-sev-snp"@],
            r.argon2id == (Argon2idParams {
                memory_kib: 1_048_576,
                time_cost: 3,
                parallelism: 4,
            }),
            r.wrapped_key_ref@ == "blob:slot0"@,
            r.vmk_version == 1,
            r.dek_version == 1,
            r.min_boot_manifest_version == 1,
            r.audit.last_rotation@ == Seq::<char>::empty(),
            r.audit.last_attested_unlock_receipt@ == Seq::<char>::empty(),
            r.audit.log_chain@ == Seq::<char>::empty(),
    {
        let mut accepted_tee: Vec<String> = Vec::new();
        accepted_tee.push("amd-sev-snp".to_string());
        assert(text::views(accepted_tee@) =~= seq!["amd-sev-snp"@]);
        VolumeProvisioning {
            volume_id: volume_id.to_string(),
            created_at: created_at.to_string(),
            profile,
            suite,
            attestation: lab_policy(),
            boot_policy_id: "pol-boot-v1".to_string(),
            measurement_policy_ref: "pol-meas-v1".to_string(),
            accepted_tee,
            argon2id: default_argon2id_params(),
            wrapped_key_ref: "blob:slot0".to_string(),
            vmk_version: 1,
            dek_version: 1,
            min_boot_manifest_version: 1,
            audit: Audit {
                last_rotation: String::new(),
                last_attested_unlock_receipt: String::new(),
                log_chain: String::new(),
            },
        }
    }

    /// `b` is the boot policy of this plan.
    pub open spec fn plans_boot_policy(self, b: BootPolicy) -> bool {
        &&& b.policy_id == self.boot_policy_id
        &&& b.secure_boot_required == self.attestation.require_secure_boot
        &&& b.measured_boot_required
        &&& text::views(b.pcr_profile@) == self.attestation.required_pcrs@.map_values(
            |p: u8| pcr_name(p),
        )
        &&& b.minimum_boot_manifest_version == self.min_boot_manifest_version
        &&& b.rollback_protection.type_@ == "tpm-nv-counter"@
        &&& b.rollback_protection.counter_name@ == "qrsd.rollback"@
    }

    /// The boot policy of this plan.
    fn boot_policy(&self) -> (r: BootPolicy)
        ensures
            self.plans_boot_policy(r),
    {
        let pcrs = self.attestation.required_pcrs;
        let mut names: Vec<String> = Vec::new();
        let mut i: usize = 0;
        while i < pcrs.len()
            invariant
                i <= pcrs@.len(),
                names@.len() == i,
                forall|k: int| 0 <= k < i ==> (#[trigger] names@[k])@ == pcr_name(pcrs@[k]),
            decreases pcrs@.len() - i,
        {
            names.push(text::joined("pcr", text::decimal_text(pcrs[i] as u64).as_str()));
            i = i + 1;
        }
        assert(text::views(names@) =~= pcrs@.map_values(|p: u8| pcr_name(p)));
        BootPolicy {
            policy_id: self.boot_policy_id.clone(),
            secure_boot_required: self.attestation.require_secure_boot,
            measured_boot_required: true,
            pcr_profile: names,
            minimum_boot_manifest_version: self.min_boot_manifest_version,
            rollback_protection: RollbackProtection {
                type_: "tpm-nv-counter".to_string(),
                counter_name: "qrsd.rollback".to_string(),
            },
        }
    }

    /// `k` is the remote slot of this plan.
    pub open spec fn plans_hybrid_slot(self, k: Keyslot, slot: u32) -> bool {
        &&& k.slot == slot
        &&& k.status == KeyslotStatus::Active
        &&& k.kind matches KeyslotKind::HybridRemoteKms { kem, attestation } && {
            &&& kem == self.suite
            &&& attestation.required
            &&& attestation.accepted_tee@ == self.accepted_tee@
            &&& attestation.measurement_policy_ref == self.measurement_policy_ref
        }
    }

    /// The remote slot of this plan.
    fn hybrid_keyslot(&self, slot: u32) -> (r: Keyslot)
        ensures
            self.plans_hybrid_slot(r, slot),
    {
        Keyslot::new(
            slot,
            KeyslotStatus::Active,
            KeyslotKind::HybridRemoteKms {
                kem: self.suite.clone(),
                attestation: KmsAttestation {
                    required: true,
                    accepted_tee: self.accepted_tee.clone(),
                    measurement_policy_ref: self.measurement_policy_ref.clone(),
                },
            },
        )
    }

    /// `m` is the unsigned manifest of this plan.
    pub open spec fn plans(self, m: QrsdManifest) -> bool {
        &&& m.format@ == QRSD_FORMAT@
        &&& m.volume_id == self.volume_id
        &&& m.created_at == self.created_at
        &&& m.data_plane.cipher@ == self.profile.cipher_name()
        &&& m.data_plane.xts_raw_key_bits == self.profile.key_size_bits
        &&& m.data_plane.sector_size == crate::storage::luks::SECTOR_SIZE
        &&& m.data_plane.integrity.mode@ == "none"@
        &&& text::views(m.data_plane.integrity.alternatives@) == seq!["dm-integrity"@]
        &&& self.plans_boot_policy(m.boot_policy)
        &&& m.key_hierarchy.volume_master_key_version == self.vmk_version
        &&& m.key_hierarchy.active_dek_version == self.dek_version
        &&& m.key_hierarchy.keyslots@.len() == 2
        &&& Luks2Profile::is_passphrase_slot(
            m.key_hierarchy.keyslots@[0],
            0,
            self.argon2id,
            self.wrapped_key_ref@,
        )
        &&& self.plans_hybrid_slot(m.key_hierarchy.keyslots@[1], 1)
        &&& m.signatures@.len() == 0
        &&& m.audit == self.audit
    }

    /// The unsigned manifest: a passphrase slot (0), a remote slot (1) with the
    /// hybrid suite, and no signatures. Fails closed when the profile does not
    /// use Argon2id.
    pub fn manifest(&self) -> (r: Result<QrsdManifest, LuksError>)
        ensures
            match r {
                Ok(m) => self.profile.uses_argon2id() && self.plans(m),
                Err(e) => !self.profile.uses_argon2id() && e == (LuksError::NotArgon2id {
                    pbkdf: self.profile.pbkdf,
                }),
            },
    {
        let passphrase = match self.profile.argon2id_keyslot(
            0,
            &self.argon2id,
            self.wrapped_key_ref.as_str(),
        ) {
            Ok(k) => k,
            Err(e) => {
                return Err(e);
            },
        };
        let mut keyslots: Vec<Keyslot> = Vec::new();
        keyslots.push(passphrase);
        keyslots.push(self.hybrid_keyslot(1));
        Ok(
            QrsdManifest {
                format: QRSD_FORMAT.to_string(),
                volume_id: self.volume_id.clone(),
                created_at: self.created_at.clone(),
                data_plane: self.profile.data_plane(),
                boot_policy: self.boot_policy(),
                key_hierarchy: ManifestKeyHierarchy {
                    volume_master_key_version: self.vmk_version,
                    active_dek_version: self.dek_version,
                    keyslots,
                },
                signatures: Vec::new(),
                audit: self.audit.clone(),
            },
        )
    }
}

/// A planned manifest offers a hybrid way in with the suite of the plan; it has
/// a post-quantum leg exactly when that suite names one.
pub proof fn planned_manifest_keeps_pqc_leg(plan: VolumeProvisioning, m: QrsdManifest)
    requires
        plan.plans(m),
    ensures
        m@.keyslots.len() == 2,
        m@.keyslots[1].hybrid(),
        m@.keyslots[1].no_pqc_leg() <==> text::blank(plan.suite.pqc@),
        m@.keyslots[1].suite() == Some(plan.suite),
{
    assert(m@.keyslots[1] == m.key_hierarchy.keyslots@[1]@);
}

} // verus!
