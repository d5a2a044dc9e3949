//! Attested hybrid unlock: the gated path from a signed manifest to a live key.
//!
//! Every gate fails closed, and their order is fixed:
//!
//! 1. manifest verification, which requires a valid post-quantum signature;
//! 2. the downgrade check;
//! 3. the suite of an active hybrid keyslot;
//! 4. the attested KMS decision;
//! 5. decapsulation of both KEM legs;
//! 6. the hybrid combination of the two secrets;
//! 7. a `key_release` receipt on the audit chain.
//!
//! Every failure is recorded on the chain too, as a denial.
use vstd::prelude::*;

use crate::attest::kms;
use crate::attest::kms::{KeyReleaseDecision, KeyReleaseRequest, KmsPolicy, KmsSimulator};
use crate::attest::pcr::BootMeasurement;
use crate::primitives;
use crate::qrse::combiner;
use crate::qrse::combiner::{hybrid_combine, CombinerContext, Kek, KemSuite};
use crate::qrse::crypto;
use crate::qrse::crypto::{CryptoError, DecapKey, Kem, KemCiphertext, Verifier};
use crate::qrse::downgrade;
use crate::qrse::downgrade::{DowngradeVerdict, DowngradeVerdictView, VersionFloor};
use crate::qrse::keyslot;
use crate::qrse::keyslot::{KeyslotStatus, KeyslotView};
use crate::qrse::manifest::{ManifestError, ManifestVerdict, ManifestView, QrsdManifest};
use crate::receipts::chain;
use crate::receipts::chain::{ReceiptChain, ReceiptEvent};
use crate::text;

verus! {

/// Policy id stamped onto unlock receipts.
pub const QRSE_UNLOCK_POLICY_ID: &'static str = "pol-qrse-attested-hybrid-unlock";

/// Default key length in bytes.
pub const KEK_LEN: usize = 32;

/// Inputs to an attested hybrid unlock.
#[derive(Debug, Clone)]
pub struct UnlockRequest {
    pub manifest: QrsdManifest,
    pub boot_measurement: BootMeasurement,
    pub device_id: String,
    pub hypervisor_version: u64,
}

/// Why an unlock failed. Every variant means that no key was produced.
#[derive(Debug, Clone, PartialEq, Eq)]
pub enum UnlockError {
    /// The manifest did not verify.
    ManifestVerification(ManifestError),
    /// The manifest is a downgrade.
    Downgrade(DowngradeVerdict),
    /// The KMS denied release, for this reason.
    AttestationDenied(String),
    /// No active hybrid keyslot gives a suite.
    NoHybridKeyslot,
    /// A leg could not be opened, or the legs could not be combined.
    Crypto(CryptoError),
}

impl UnlockError {
    /// The text of the error.
    pub open spec fn text(self) -> Seq<char> {
        match self {
            UnlockError::ManifestVerification(e) => "manifest verification failed: "@ + e.text(),
            UnlockError::Downgrade(v) => "downgrade rejected: "@ + v@.shown(),
            UnlockError::AttestationDenied(d) => "attestation denied: "@ + d@,
            UnlockError::NoHybridKeyslot => "no active hybrid keyslot to derive a suite from"@,
            UnlockError::Crypto(e) => "crypto failure: "@ + e.text(),
        }
    }

    /// The error as one line of text.
    pub fn message(&self) -> (r: String)
        ensures
            r@ == self.text(),
    {
        match self {
            UnlockError::ManifestVerification(e) => text::joined(
                "manifest verification failed: ",
                e.message().as_str(),
            ),
            UnlockError::Downgrade(v) => text::joined("downgrade rejected: ", v.show().as_str()),
            UnlockError::AttestationDenied(d) => text::joined("attestation denied: ", d.as_str()),
            UnlockError::NoHybridKeyslot => {
                "no active hybrid keyslot to derive a suite from".to_string()
            },
            UnlockError::Crypto(e) => text::joined("crypto failure: ", e.message().as_str()),
        }
    }
}

/// The decapsulation material for one KEM leg.
#[derive(Debug, Clone)]
pub struct KemLeg<'a> {
    pub dk: &'a DecapKey,
    pub ct: &'a KemCiphertext,
}

/// A slot that an unlock can take its suite from.
pub open spec fn unlockable(k: KeyslotView) -> bool {
    k.status == KeyslotStatus::Active && k.hybrid() && !k.no_pqc_leg()
}

/// Slot `i` is the first that an unlock can take its suite from.
pub open spec fn first_unlockable(slots: Seq<KeyslotView>, i: int) -> bool {
    &&& 0 <= i < slots.len()
    &&& unlockable(slots[i])
    &&& forall|j: int| 0 <= j < i ==> !unlockable(#[trigger] slots[j])
}

/// The suite that an unlock uses.
pub open spec fn unlock_suite(slots: Seq<KeyslotView>) -> Option<KemSuite> {
    if exists|i: int| first_unlockable(slots, i) {
        slots[choose|i: int| first_unlockable(slots, i)].suite()
    } else {
        None
    }
}

/// The suite of the first active hybrid slot with a post-quantum leg.
fn find_suite(slots: &[keyslot::Keyslot]) -> (r: Option<KemSuite>)
    ensures
        r == unlock_suite(keyslot::keyslots_view(slots@)),
{
    let ghost views = keyslot::keyslots_view(slots@);
    let mut i: usize = 0;
    while i < slots.len()
        invariant
            i <= slots@.len(),
            views == keyslot::keyslots_view(slots@),
            forall|j: int| 0 <= j < i ==> !unlockable(#[trigger] views[j]),
        decreases slots@.len() - i,
    {
        let slot = &slots[i];
        assert(views[i as int] == slot@);
        if slot.is_active() && slot.is_hybrid() && !slot.classical_only() {
            proof {
                assert(first_unlockable(views, i as int));
                let c = choose|k: int| first_unlockable(views, k);
                assert(c == i);
            }
            if let Some(s) = slot.kem_suite() {
                return Some(s.clone());
            }
        }
        i = i + 1;
    }
    None
}

/// The nonce that binds a release request to a volume and its version floor.
pub open spec fn release_nonce(m: ManifestView) -> Seq<char> {
    m.volume_id@ + ":"@ + text::decimal(m.boot_policy.minimum_boot_manifest_version as nat)
}

/// The release request that an unlock makes: everything in it comes from the
/// manifest, the measurement and the device.
pub open spec fn is_release_request(r: KeyReleaseRequest, req: UnlockRequest) -> bool {
    &&& r.request_type@ == "key_release"@
    &&& r.device_id@ == req.device_id@
    &&& r.vm_id@ == req.manifest.volume_id@
    &&& r.capsule_hash@ == req.boot_measurement.capsule_manifest_hash@
    &&& r.boot_policy_hash@ == req.boot_measurement.boot_policy_hash@
    &&& r.pcrs@ == req.boot_measurement.pcrs@
    &&& r.hypervisor_version == req.hypervisor_version
    &&& r.nonce@ == release_nonce(req.manifest@)
}

fn release_request(req: &UnlockRequest) -> (r: KeyReleaseRequest)
    ensures
        is_release_request(r, *req),
{
    let bm = &req.boot_measurement;
    let mut nonce = req.manifest.volume_id.clone();
    nonce.append(":");
    nonce.append(
        text::decimal_text(req.manifest.boot_policy.minimum_boot_manifest_version).as_str(),
    );
    KeyReleaseRequest {
        request_type: "key_release".to_string(),
        device_id: req.device_id.clone(),
        vm_id: req.manifest.volume_id.clone(),
        capsule_hash: bm.capsule_manifest_hash.clone(),
        boot_policy_hash: bm.boot_policy_hash.clone(),
        pcrs: bm.pcrs.clone(),
        hypervisor_version: req.hypervisor_version,
        nonce,
    }
}

/// What the derived key is bound to.
pub open spec fn is_unlock_context(c: CombinerContext, req: UnlockRequest, suite: KemSuite) -> bool {
    &&& c.volume_id@ == req.manifest.volume_id@
    &&& c.device_id@ == req.device_id@
    &&& c.policy_id@ == req.manifest.boot_policy.policy_id@
    &&& c.policy_version == req.manifest.boot_policy.minimum_boot_manifest_version
    &&& c.algorithm_suite == suite
    &&& c.boot_measurement@ == req.boot_measurement.boot_policy_hash@
}

/// Which gate an unlock ends at.
pub enum UnlockStage {
    /// The manifest does not verify.
    Manifest(ManifestVerdict),
    /// The manifest is a downgrade.
    Downgrade(DowngradeVerdictView),
    /// No slot gives a suite.
    NoHybridKeyslot,
    /// The KMS denies.
    Denied,
    /// The classical leg does not open.
    ClassicalLeg(CryptoError),
    /// The post-quantum leg does not open.
    PqcLeg(CryptoError),
    /// Both legs open, with this suite and these secrets.
    Legs(KemSuite, Seq<u8>, Seq<u8>),
}

/// The stage at which an unlock ends, looked at in order.
pub open spec fn unlock_stage<V: Verifier + ?Sized>(
    req: UnlockRequest,
    verifiers: Seq<&V>,
    floor: VersionFloor,
    monotonic_counter: u64,
    classical: Result<Seq<u8>, CryptoError>,
    pqc: Result<Seq<u8>, CryptoError>,
    kms_admits: bool,
) -> UnlockStage {
    let m = req.manifest@;
    let downgrade = downgrade::downgrade_of(m, floor, monotonic_counter);
    if !(m.verdict(verifiers) is Verified) {
        UnlockStage::Manifest(m.verdict(verifiers))
    } else if downgrade != DowngradeVerdictView::Accepted {
        UnlockStage::Downgrade(downgrade)
    } else {
        match unlock_suite(m.keyslots) {
            None => UnlockStage::NoHybridKeyslot,
            Some(suite) => if !kms_admits {
                UnlockStage::Denied
            } else {
                match (classical, pqc) {
                    (Err(e), _) => UnlockStage::ClassicalLeg(e),
                    (_, Err(e)) => UnlockStage::PqcLeg(e),
                    (Ok(c), Ok(p)) => UnlockStage::Legs(suite, c, p),
                }
            },
        }
    }
}

/// A receipt of an unlock with this decision.
pub open spec fn unlock_recorded(
    before: ReceiptChain,
    after: ReceiptChain,
    m: ManifestView,
    decision: Seq<char>,
) -> bool {
    chain::appended(
        before,
        after,
        ReceiptEvent::KeyRelease.wire(),
        m.volume_id@,
        decision,
        QRSE_UNLOCK_POLICY_ID@,
        primitives::sha384_hex_spec(m.signed_bytes()),
    )
}

/// A release that the KMS admitted, and then a receipt of the unlock with this
/// decision.
pub open spec fn unlock_recorded_after_release(
    before: ReceiptChain,
    after: ReceiptChain,
    m: ManifestView,
    release: KeyReleaseRequest,
    decision: Seq<char>,
) -> bool {
    exists|mid: ReceiptChain| #[trigger]
        kms::release_recorded(before, mid, release, "allow"@) && unlock_recorded(
            mid,
            after,
            m,
            decision,
        )
}

/// A decision text that says no.
pub open spec fn is_denial(decision: Seq<char>) -> bool {
    decision == "deny"@ || exists|stage: Seq<char>| decision == #[trigger] ("deny:"@ + stage)
}

/// What an unlock returns and records, for the stage that it ends at. `release`
/// is the request that it made to the KMS, and `context` what the key is bound
/// to.
pub open spec fn unlocked(
    req: UnlockRequest,
    stage: UnlockStage,
    policy: KmsPolicy,
    release: KeyReleaseRequest,
    context: CombinerContext,
    before: ReceiptChain,
    after: ReceiptChain,
    r: Result<Kek, UnlockError>,
) -> bool {
    let m = req.manifest@;
    match stage {
        UnlockStage::Manifest(verdict) => {
            &&& r matches Err(UnlockError::ManifestVerification(e)) && m.explains(verdict, e)
            &&& unlock_recorded(before, after, m, "deny:"@ + "manifest_verification"@)
        },
        UnlockStage::Downgrade(d) => {
            &&& r matches Err(UnlockError::Downgrade(v)) && v@ == d
            &&& unlock_recorded(before, after, m, "deny:"@ + "downgrade"@)
        },
        UnlockStage::NoHybridKeyslot => {
            &&& r == Err::<Kek, UnlockError>(UnlockError::NoHybridKeyslot)
            &&& unlock_recorded(before, after, m, "deny:"@ + "no_hybrid_keyslot"@)
        },
        UnlockStage::Denied => {
            &&& r matches Err(UnlockError::AttestationDenied(why)) && policy.denial(release)
                == Some(why@)
            &&& kms::release_recorded(before, after, release, "deny"@)
        },
        UnlockStage::ClassicalLeg(e) => {
            &&& r == Err::<Kek, UnlockError>(UnlockError::Crypto(e))
            &&& unlock_recorded_after_release(
                before,
                after,
                m,
                release,
                "deny:"@ + "decapsulation"@,
            )
        },
        UnlockStage::PqcLeg(e) => {
            &&& r == Err::<Kek, UnlockError>(UnlockError::Crypto(e))
            &&& unlock_recorded_after_release(
                before,
                after,
                m,
                release,
                "deny:"@ + "decapsulation"@,
            )
        },
        UnlockStage::Legs(suite, c, p) => {
            &&& is_unlock_context(context, req, suite)
            &&& match combiner::combine_spec(c, p, m.signed_bytes(), context, KEK_LEN as nat) {
                Err(e) => {
                    &&& r == Err::<Kek, UnlockError>(UnlockError::Crypto(e))
                    &&& unlock_recorded_after_release(
                        before,
                        after,
                        m,
                        release,
                        "deny:"@ + "hybrid_combine"@,
                    )
                },
                Ok(key) => {
                    &&& r matches Ok(k) && k@ == key && k@.len() == KEK_LEN
                    &&& unlock_recorded_after_release(before, after, m, release, "allow"@)
                },
            }
        },
    }
}

/// Record a denial on the audit chain.
fn record_deny(chain: &mut ReceiptChain, manifest: &QrsdManifest, inputs_hash: &str, stage: &str)
    requires
        inputs_hash@ == primitives::sha384_hex_spec(manifest@.signed_bytes()),
    ensures
        unlock_recorded(*old(chain), *final(chain), manifest@, "deny:"@ + stage@),
        old(chain).intact() ==> final(chain).intact(),
{
    let mut decision = "deny:".to_string();
    decision.append(stage);
    chain.append(
        ReceiptEvent::KeyRelease.as_str(),
        manifest.volume_id.as_str(),
        decision.as_str(),
        QRSE_UNLOCK_POLICY_ID,
        inputs_hash,
    );
}

/// Run the full attested hybrid unlock. Returns a [`Kek`] on success; on any
/// failure an [`UnlockError`], and a denial is recorded.
pub fn attested_hybrid_unlock<
    V: Verifier + ?Sized,
    C: Kem + ?Sized,
    P: Kem + ?Sized,
>(
    req: &UnlockRequest,
    verifiers: &[&V],
    floor: &VersionFloor,
    monotonic_counter: u64,
    classical_kem: &C,
    pqc_kem: &P,
    classical_leg: KemLeg<'_>,
    pqc_leg: KemLeg<'_>,
    kms: &KmsSimulator,
    chain: &mut ReceiptChain,
) -> (r: Result<Kek, UnlockError>)
    ensures
        exists|release: KeyReleaseRequest, context: CombinerContext| #[trigger]
            is_release_request(release, *req) && #[trigger] unlocked(
                *req,
                unlock_stage(
                    *req,
                    verifiers@,
                    *floor,
                    monotonic_counter,
                    classical_kem.decap(classical_leg.dk.0@, classical_leg.ct.0@),
                    pqc_kem.decap(pqc_leg.dk.0@, pqc_leg.ct.0@),
                    kms.policy.admits(release),
                ),
                kms.policy,
                release,
                context,
                *old(chain),
                *final(chain),
                r,
            ),
        old(chain).intact() ==> final(chain).intact(),
{
    let manifest = &req.manifest;
    let body = manifest.signing_bytes();
    let inputs_hash = primitives::sha384_hex(body.as_slice());
    let kms_req = release_request(req);
    let ghost no_context: CombinerContext = arbitrary();
    let ghost stage = unlock_stage(
        *req,
        verifiers@,
        *floor,
        monotonic_counter,
        classical_kem.decap(classical_leg.dk.0@, classical_leg.ct.0@),
        pqc_kem.decap(pqc_leg.dk.0@, pqc_leg.ct.0@),
        kms.policy.admits(kms_req),
    );

    let verified = match manifest.verify(verifiers) {
        Ok(v) => v,
        Err(e) => {
            record_deny(chain, manifest, inputs_hash.as_str(), "manifest_verification");
            let r = Err(UnlockError::ManifestVerification(e));
            assert(unlocked(
                *req,
                stage,
                kms.policy,
                kms_req,
                no_context,
                *old(chain),
                *chain,
                r,
            ));
            return r;
        },
    };

    let verdict = downgrade::check(&verified, floor, monotonic_counter);
    if !verdict.is_ok() {
        record_deny(chain, manifest, inputs_hash.as_str(), "downgrade");
        let r = Err(UnlockError::Downgrade(verdict));
        assert(unlocked(
            *req,
            stage,
            kms.policy,
            kms_req,
            no_context,
            *old(chain),
            *chain,
            r,
        ));
        return r;
    }
    let suite = match find_suite(verified.keyslots()) {
        Some(s) => s,
        None => {
            record_deny(chain, manifest, inputs_hash.as_str(), "no_hybrid_keyslot");
            let r = Err(UnlockError::NoHybridKeyslot);
            assert(unlocked(
                *req,
                stage,
                kms.policy,
                kms_req,
                no_context,
                *old(chain),
                *chain,
                r,
            ));
            return r;
        },
    };

    match kms.evaluate(&kms_req, chain) {
        KeyReleaseDecision::Allow { .. } => {},
        KeyReleaseDecision::Deny { reason } => {
            let r = Err(UnlockError::AttestationDenied(reason));
            assert(unlocked(
                *req,
                stage,
                kms.policy,
                kms_req,
                no_context,
                *old(chain),
                *chain,
                r,
            ));
            return r;
        },
    }
    let ghost mid = *chain;

    let ss_classical = match classical_kem.decapsulate(classical_leg.dk, classical_leg.ct) {
        Ok(s) => s,
        Err(e) => {
            record_deny(chain, manifest, inputs_hash.as_str(), "decapsulation");
            let r = Err(UnlockError::Crypto(e));
            assert(kms::release_recorded(*old(chain), mid, kms_req, "allow"@));
            assert(unlocked(
                *req,
                stage,
                kms.policy,
                kms_req,
                no_context,
                *old(chain),
                *chain,
                r,
            ));
            return r;
        },
    };
    let ss_pqc = match pqc_kem.decapsulate(pqc_leg.dk, pqc_leg.ct) {
        Ok(s) => s,
        Err(e) => {
            record_deny(chain, manifest, inputs_hash.as_str(), "decapsulation");
            let r = Err(UnlockError::Crypto(e));
            assert(kms::release_recorded(*old(chain), mid, kms_req, "allow"@));
            assert(unlocked(
                *req,
                stage,
                kms.policy,
                kms_req,
                no_context,
                *old(chain),
                *chain,
                r,
            ));
            return r;
        },
    };

    let ghost used = suite;
    let context = CombinerContext {
        volume_id: manifest.volume_id.clone(),
        device_id: req.device_id.clone(),
        policy_id: manifest.boot_policy.policy_id.clone(),
        policy_version: manifest.boot_policy.minimum_boot_manifest_version,
        algorithm_suite: suite,
        boot_measurement: req.boot_measurement.boot_policy_hash.clone(),
    };
    assert(is_unlock_context(context, *req, used));
    let kek = match hybrid_combine(&ss_classical, &ss_pqc, body.as_slice(), &context, KEK_LEN) {
        Ok(k) => k,
        Err(e) => {
            record_deny(chain, manifest, inputs_hash.as_str(), "hybrid_combine");
            let r = Err(UnlockError::Crypto(e));
            assert(kms::release_recorded(*old(chain), mid, kms_req, "allow"@));
            assert(unlocked(
                *req,
                stage,
                kms.policy,
                kms_req,
                context,
                *old(chain),
                *chain,
                r,
            ));
            return r;
        },
    };

    chain.append(
        ReceiptEvent::KeyRelease.as_str(),
        manifest.volume_id.as_str(),
        "allow",
        QRSE_UNLOCK_POLICY_ID,
        inputs_hash.as_str(),
    );
    let r = Ok(kek);
    assert(kms::release_recorded(*old(chain), mid, kms_req, "allow"@));
    assert(unlocked(
        *req,
        stage,
        kms.policy,
        kms_req,
        context,
        *old(chain),
        *chain,
        r,
    ));
    r
}

// ------------------------------------------------------------------- laws

/// The release request is determined by the unlock request: what the KMS
/// decides about it, and the hash under which it is recorded, are too.
pub proof fn release_request_is_determined(
    a: KeyReleaseRequest,
    b: KeyReleaseRequest,
    req: UnlockRequest,
    policy: KmsPolicy,
)
    requires
        is_release_request(a, req),
        is_release_request(b, req),
    ensures
        a.json() == b.json(),
        policy.admits(a) == policy.admits(b),
        policy.denial(a) == policy.denial(b),
{
}

/// A key comes out only where every gate let it: the manifest carries a valid
/// post-quantum signature, it is no downgrade, an active hybrid slot gives the
/// suite, the KMS admits the release, and both legs open to a live secret.
pub proof fn key_only_through_every_gate<V: Verifier + ?Sized>(
    req: UnlockRequest,
    verifiers: Seq<&V>,
    floor: VersionFloor,
    monotonic_counter: u64,
    classical: Result<Seq<u8>, CryptoError>,
    pqc: Result<Seq<u8>, CryptoError>,
    policy: KmsPolicy,
    release: KeyReleaseRequest,
    context: CombinerContext,
    before: ReceiptChain,
    after: ReceiptChain,
    r: Result<Kek, UnlockError>,
)
    requires
        unlocked(
            req,
            unlock_stage(
                req,
                verifiers,
                floor,
                monotonic_counter,
                classical,
                pqc,
                policy.admits(release),
            ),
            policy,
            release,
            context,
            before,
            after,
            r,
        ),
        r is Ok,
    ensures
        req.manifest@.verdict(verifiers) is Verified,
        downgrade::downgrade_of(req.manifest@, floor, monotonic_counter)
            == DowngradeVerdictView::Accepted,
        unlock_suite(req.manifest@.keyslots) is Some,
        policy.admits(release),
        classical matches Ok(c) && crypto::live(c),
        pqc matches Ok(p) && crypto::live(p),
{
}

/// Every unlock leaves a trace, whose last receipt says what became of it:
/// `allow` where a key came out, a denial where none did.
pub proof fn every_unlock_is_recorded(
    req: UnlockRequest,
    stage: UnlockStage,
    policy: KmsPolicy,
    release: KeyReleaseRequest,
    context: CombinerContext,
    before: ReceiptChain,
    after: ReceiptChain,
    r: Result<Kek, UnlockError>,
)
    requires
        unlocked(req, stage, policy, release, context, before, after, r),
    ensures
        after.entries().len() > before.entries().len(),
        after.entries().take(before.entries().len() as int) == before.entries(),
        r is Ok <==> after.entries().last().decision@ == "allow"@,
        r is Err <==> is_denial(after.entries().last().decision@),
{
    let last = after.entries().last().decision@;
    reveal_strlit("allow");
    reveal_strlit("deny");
    reveal_strlit("deny:");
    if is_denial(last) {
        assert(last[0] == 'd');
    }
    assert("allow"@[0] == 'a');
}

} // verus!
