//! What provisioning is for, stated over its calls.
use vstd::prelude::*;

use crate::attest::kms::SuiteBinding;
use crate::json;
use crate::qrse;
use crate::qrse::combiner::{CombinerContext, KemSuite};
use crate::qrse::hierarchy::KeyClass;
use crate::qrse::keyslot::{Keyslot as QrseKeyslot, KeyslotKind, KeyslotStatus};
use crate::qrse::manifest::{DataPlane, ManifestKeyHierarchy, QrsdManifest};
use crate::storage::key_hierarchy::{keyslot_kind_label, StorageKeyHierarchy};
use crate::storage::luks;
use crate::storage::luks::{Argon2idParams, Luks2Profile, LuksError};
use crate::storage::pqc;
use crate::storage::pqc::HybridKemSuite;
use crate::storage::provisioning::VolumeProvisioning;
use crate::text;

verus! {

/// A data plane keeps the size of the volume key, uses sectors of 4 KiB, and names
/// the cipher as the profile does, but for the one that has a name of its own.
pub proof fn data_plane_keeps_the_profile(p: &Luks2Profile, d: DataPlane)
    requires
        call_ensures(Luks2Profile::data_plane, (p,), d),
    ensures
        d.xts_raw_key_bits == p.key_size_bits,
        d.sector_size == 4096,
        p.cipher@ != "aes-xts-plain64"@ || p.key_size_bits != 512 ==> d.cipher@ == p.cipher@,
        p.cipher@ == "aes-xts-plain64"@ && p.key_size_bits == 512 ==> d.cipher@ == "AES-256-XTS"@,
{
}

/// A passphrase slot is made exactly of a profile that derives with Argon2id; it is
/// active, has the number, the cost and the reference that were asked for, and no
/// post-quantum leg.
pub proof fn passphrase_slot_needs_argon2id(
    p: &Luks2Profile,
    slot: u32,
    params: &Argon2idParams,
    wrapped: &str,
    r: Result<QrseKeyslot, LuksError>,
)
    requires
        call_ensures(Luks2Profile::argon2id_keyslot, (p, slot, params, wrapped), r),
    ensures
        r is Ok <==> p.pbkdf@ == "argon2id"@,
        r matches Ok(k) ==> {
            &&& k.slot == slot
            &&& k.status == KeyslotStatus::Active
            &&& k.kind is Argon2idPassphrase
            &&& k.kind->kdf.memory_kib == params.memory_kib
            &&& k.kind->kdf.time_cost == params.time_cost
            &&& k.kind->kdf.parallelism == params.parallelism
            &&& k.kind->wrap.wrapped_key_ref@ == wrapped@
        },
        r matches Err(e) ==> e == (LuksError::NotArgon2id { pbkdf: p.pbkdf }),
{
}

/// A provisioned manifest is unsigned, carries what the plan says, and has two
/// active slots: a passphrase slot, and a hybrid slot with the plan's suite that
/// asks for attestation. A plan that does not derive with Argon2id gives none.
pub proof fn provisioned_manifest_follows_the_plan(
    p: &VolumeProvisioning,
    r: Result<QrsdManifest, LuksError>,
    i: int,
)
    requires
        call_ensures(VolumeProvisioning::manifest, (p,), r),
    ensures
        r is Ok <==> p.profile.pbkdf@ == "argon2id"@,
        r matches Ok(m) ==> {
            &&& m.format@ == "qrsd-v1"@
            &&& m.volume_id@ == p.volume_id@
            &&& m.created_at@ == p.created_at@
            &&& m.signatures@.len() == 0
            &&& m.boot_policy.policy_id@ == p.boot_policy_id@
            &&& m.boot_policy.minimum_boot_manifest_version == p.min_boot_manifest_version
            &&& m.boot_policy.secure_boot_required == p.attestation.require_secure_boot
            &&& m.boot_policy.measured_boot_required
            &&& m.boot_policy.pcr_profile@.len() == p.attestation.required_pcrs@.len()
            &&& m.key_hierarchy.volume_master_key_version == p.vmk_version
            &&& m.key_hierarchy.active_dek_version == p.dek_version
            &&& m.key_hierarchy.keyslots@.len() == 2
            &&& m.key_hierarchy.keyslots@[0].slot == 0 && m.key_hierarchy.keyslots@[1].slot == 1
            &&& m.key_hierarchy.keyslots@[0].status == KeyslotStatus::Active
            &&& m.key_hierarchy.keyslots@[1].status == KeyslotStatus::Active
            &&& m.key_hierarchy.keyslots@[0].kind is Argon2idPassphrase
            &&& m.key_hierarchy.keyslots@[1].kind is HybridRemoteKms
            &&& m.key_hierarchy.keyslots@[1].kind->kem == p.suite
            &&& m.key_hierarchy.keyslots@[1].kind->attestation.required
            &&& m.audit == p.audit
        },
        r is Ok && 0 <= i < p.attestation.required_pcrs@.len() ==> exists|shown: Seq<char>|
            (r->Ok_0).boot_policy.pcr_profile@[i]@ == "pcr"@ + shown && text::laws::numeral(
                shown,
                10,
            ) && #[trigger] text::laws::worth(shown, 10) == p.attestation.required_pcrs@[i],
{
    if r is Ok {
        let b = (r->Ok_0).boot_policy;
        let names = text::views(b.pcr_profile@);
        assert(names.len() == b.pcr_profile@.len());
        if 0 <= i < p.attestation.required_pcrs@.len() {
            let n = p.attestation.required_pcrs@[i] as nat;
            assert(names[i] == b.pcr_profile@[i]@);
            let shown = text::decimal(n);
            text::laws::decimal_reads_back(n);
            assert(text::laws::worth(shown, 10) == n);
        }
    }
}

/// A provisioned manifest has the data plane of its profile, without integrity
/// tags, a counter against rollback, the passphrase slot that the profile makes,
/// and a hybrid slot that asks for what the plan accepts.
pub proof fn provisioned_manifest_keeps_profile_and_attestation(
    p: &VolumeProvisioning,
    m: QrsdManifest,
    d: DataPlane,
    wrapped: &str,
    k: Result<QrseKeyslot, LuksError>,
)
    requires
        call_ensures(VolumeProvisioning::manifest, (p,), Ok::<QrsdManifest, LuksError>(m)),
        call_ensures(Luks2Profile::data_plane, (&p.profile,), d),
        wrapped@ == p.wrapped_key_ref@,
        call_ensures(Luks2Profile::argon2id_keyslot, (&p.profile, 0, &p.argon2id, wrapped), k),
    ensures
        m.data_plane.cipher@ == d.cipher@,
        m.data_plane.xts_raw_key_bits == d.xts_raw_key_bits,
        m.data_plane.sector_size == d.sector_size,
        m.data_plane.integrity.mode@ == "none"@ && d.integrity.mode@ == "none"@,
        m.boot_policy.rollback_protection.type_@ == "tpm-nv-counter"@,
        m.boot_policy.rollback_protection.counter_name@ == "qrsd.rollback"@,
        k is Ok && qrse::laws::same_slot(m.key_hierarchy.keyslots@[0], k->Ok_0),
        m.key_hierarchy.keyslots@[1].kind->attestation.accepted_tee@ == p.accepted_tee@,
        m.key_hierarchy.keyslots@[1].kind->attestation.measurement_policy_ref
            == p.measurement_policy_ref,
{
}

/// A summary has the versions and, slot by slot, the number, the mechanism and the
/// state of the hierarchy that it sums up.
pub proof fn summary_keeps_each_slot(
    volume: &str,
    mh: &ManifestKeyHierarchy,
    s: StorageKeyHierarchy,
    i: int,
    kind: &'static str,
    status: &'static str,
)
    requires
        call_ensures(StorageKeyHierarchy::from_manifest, (volume, mh), s),
        0 <= i < mh.keyslots@.len(),
        call_ensures(keyslot_kind_label, (&mh.keyslots@[i].kind,), kind),
        call_ensures(KeyslotStatus::as_str, (mh.keyslots@[i].status,), status),
    ensures
        s.volume_id@ == volume@,
        s.dek_version == mh.active_dek_version,
        s.vmk_version == mh.volume_master_key_version,
        s.keyslots@.len() == mh.keyslots@.len(),
        s.keyslots@[i].id == mh.keyslots@[i].slot,
        s.keyslots@[i].kind@ == kind@,
        s.keyslots@[i].status@ == status@,
{
    assert(s.keyslots@[i].summarizes(mh.keyslots@[i]));
}

/// No two mechanisms and no two states have one name.
pub proof fn labels_tell_apart(
    a: &KeyslotKind,
    b: &KeyslotKind,
    x: &'static str,
    y: &'static str,
    s: KeyslotStatus,
    t: KeyslotStatus,
    u: &'static str,
    v: &'static str,
)
    requires
        call_ensures(keyslot_kind_label, (a,), x),
        call_ensures(keyslot_kind_label, (b,), y),
        call_ensures(KeyslotStatus::as_str, (s,), u),
        call_ensures(KeyslotStatus::as_str, (t,), v),
    ensures
        x@ == y@ ==> {
            &&& a is Argon2idPassphrase == b is Argon2idPassphrase
            &&& a is Tpm2Sealed == b is Tpm2Sealed
            &&& a is HybridRemoteKms == b is HybridRemoteKms
            &&& a is ThresholdRecovery == b is ThresholdRecovery
        },
        u@ == v@ ==> s == t,
{
    reveal_strlit("argon2id_passphrase");
    reveal_strlit("tpm2_sealed");
    reveal_strlit("hybrid_remote_kms");
    reveal_strlit("threshold_recovery");
    reveal_strlit("active");
    reveal_strlit("disabled_until_break_glass");
    reveal_strlit("retired");
    assert("argon2id_passphrase"@.len() == 19 && "tpm2_sealed"@.len() == 11);
    assert("hybrid_remote_kms"@.len() == 17 && "threshold_recovery"@.len() == 18);
    assert("active"@.len() == 6 && "retired"@.len() == 7);
    assert("disabled_until_break_glass"@.len() == 26);
}

/// A summary's document pins it.
pub proof fn summary_document_pins_summary(
    a: &StorageKeyHierarchy,
    b: &StorageKeyHierarchy,
    x: String,
    y: String,
    i: int,
)
    requires
        call_ensures(StorageKeyHierarchy::to_json, (a,), x),
        call_ensures(StorageKeyHierarchy::to_json, (b,), y),
        x@ == y@,
        0 <= i < a.keyslots@.len(),
    ensures
        a.volume_id@ == b.volume_id@,
        a.dek_version == b.dek_version,
        a.vmk_version == b.vmk_version,
        a.keyslots@.len() == b.keyslots@.len(),
        a.keyslots@[i].id == b.keyslots@[i].id,
        a.keyslots@[i].kind@ == b.keyslots@[i].kind@,
        a.keyslots@[i].status@ == b.keyslots@[i].status@,
{
    json::unambiguous::compact_is_injective(a.wire(), b.wire());
    let (p, q) = (a.wire()->Object_0, b.wire()->Object_0);
    assert(p[0] == q[0] && p[1] == q[1] && p[2] == q[2] && p[3] == q[3]);
    let (s, t) = (p[3].1->List_0, q[3].1->List_0);
    assert(s.len() == a.keyslots@.len() && t.len() == b.keyslots@.len());
    assert(s[i] == a.keyslots@[i].wire() && t[i] == b.keyslots@[i].wire());
    let (u, v) = (s[i]->Object_0, t[i]->Object_0);
    assert(u[0] == v[0] && u[1] == v[1] && u[2] == v[2]);
}

/// A summary and the slots it was made from give the hierarchy back.
pub proof fn summary_and_slots_give_the_hierarchy(
    volume: &str,
    mh: &ManifestKeyHierarchy,
    s: &StorageKeyHierarchy,
    back: ManifestKeyHierarchy,
)
    requires
        call_ensures(StorageKeyHierarchy::from_manifest, (volume, mh), *s),
        call_ensures(StorageKeyHierarchy::to_manifest, (s, mh.keyslots), back),
    ensures
        back == *mh,
{
}

/// The context carries what it was given, and the suite's three names unchanged, so
/// that two contexts of different suites encode differently.
pub proof fn context_carries_the_suite(
    volume: &str,
    device: &str,
    policy: &str,
    version: u64,
    suite: &HybridKemSuite,
    boot: &str,
    c: CombinerContext,
)
    requires
        call_ensures(
            pqc::build_combiner_context,
            (volume, device, policy, version, suite, boot),
            c,
        ),
    ensures
        c.volume_id@ == volume@ && c.device_id@ == device@ && c.policy_id@ == policy@,
        c.policy_version == version,
        c.boot_measurement@ == boot@,
        c.algorithm_suite.classical@ == suite.classical@,
        c.algorithm_suite.pqc@ == suite.pqc@,
        c.algorithm_suite.combiner@ == suite.combiner@,
{
}

/// A suite with owned names has the same names and the same wire form.
pub proof fn owned_suite_is_the_same(s: &HybridKemSuite, k: KemSuite, x: String, y: String)
    requires
        call_ensures(HybridKemSuite::to_kem_suite, (s,), k),
        call_ensures(HybridKemSuite::canonical, (s,), x),
        call_ensures(KemSuite::canonical, (&k,), y),
    ensures
        k.classical@ == s.classical@ && k.pqc@ == s.pqc@ && k.combiner@ == s.combiner@,
        x@ == y@,
{
}

/// The text form of a context ends in the version's decimal, behind the volume and
/// the device.
pub proof fn context_text_shows_its_parts(volume: &str, device: &str, version: u64, r: String)
    requires
        call_ensures(pqc::combiner_context, (volume, device, version), r),
    ensures
        exists|shown: Seq<char>|
            r@ == "chainnew-hyper-slate:v1:"@ + volume@ + ":"@ + device@ + ":"@ + shown
                && text::laws::numeral(shown, 10) && #[trigger] text::laws::worth(shown, 10)
                == version,
{
    let shown = text::decimal(version as nat);
    text::laws::decimal_reads_back(version as nat);
    assert(text::laws::worth(shown, 10) == version);
}

/// The chain of keys for a slot runs from two wrapping keys at the top down to the
/// volume's master key and its data key, through the key that the slot's mechanism
/// holds.
pub proof fn chain_runs_through_the_mechanism(slot: &QrseKeyslot, r: Vec<KeyClass>)
    requires
        call_ensures(StorageKeyHierarchy::wrapping_chain_for, (slot,), r),
    ensures
        r@.len() == if slot.kind is ThresholdRecovery {
            7nat
        } else {
            6
        },
        r@[0] == KeyClass::Kek && r@[1] == KeyClass::Kek,
        r@[r@.len() - 2] == KeyClass::Vmk && r@.last() == KeyClass::Dek,
        r@[2] == if slot.kind is HybridRemoteKms {
            KeyClass::RemoteKmsKey
        } else {
            KeyClass::DeviceKey
        },
        slot.kind is Argon2idPassphrase ==> r@[3] == KeyClass::UserKey,
        slot.kind is Tpm2Sealed ==> r@[3] == KeyClass::HardwareSealedKey,
        slot.kind is HybridRemoteKms ==> r@[3] == KeyClass::PqcWrappedKey,
        slot.kind is ThresholdRecovery ==> r@[3] == KeyClass::RecoveryKey && r@[4]
            == KeyClass::ThresholdShare,
{
}

/// The two ready-made suites share all but the post-quantum algorithm, and are the
/// same wherever they are made.
pub proof fn ready_made_suites_agree(
    a: HybridKemSuite,
    b: HybridKemSuite,
    x: KemSuite,
    y: KemSuite,
    s: SuiteBinding,
    t: SuiteBinding,
)
    requires
        call_ensures(pqc::default_transition_suite, (), a),
        call_ensures(pqc::high_assurance_suite, (), b),
        call_ensures(KemSuite::transition_768, (), x),
        call_ensures(KemSuite::high_assurance_1024, (), y),
        call_ensures(SuiteBinding::transition_768, (), s),
        call_ensures(SuiteBinding::high_assurance_1024, (), t),
    ensures
        a.pqc@ == x.pqc@ && a.pqc@ == s.pqc@ && b.pqc@ == y.pqc@ && b.pqc@ == t.pqc@,
        a.pqc@ != b.pqc@,
        a.classical@ == b.classical@ && a.classical@ == x.classical@ && a.classical@ == y.classical@,
        a.classical@ == s.classical@ && a.classical@ == t.classical@,
        a.combiner@ == b.combiner@ && a.combiner@ == x.combiner@ && a.combiner@ == y.combiner@,
        a.combiner@ == s.combiner@ && a.combiner@ == t.combiner@,
{
    reveal_strlit("ml-kem-768");
    reveal_strlit("ml-kem-1024");
    assert("ml-kem-768"@.len() == 10 && "ml-kem-1024"@.len() == 11);
}

/// The ready-made profile makes passphrase slots, and its data plane is AES-256 in
/// XTS mode.
pub proof fn ready_made_profile_derives_with_argon2id(
    p: Luks2Profile,
    slot: u32,
    params: &Argon2idParams,
    wrapped: &str,
    r: Result<QrseKeyslot, LuksError>,
    d: DataPlane,
)
    requires
        call_ensures(luks::aes_256_xts_argon2id, (), p),
        call_ensures(Luks2Profile::argon2id_keyslot, (&p, slot, params, wrapped), r),
        call_ensures(Luks2Profile::data_plane, (&p,), d),
    ensures
        r is Ok,
        d.cipher@ == "AES-256-XTS"@,
        d.xts_raw_key_bits == 512,
{
}

} // verus!
