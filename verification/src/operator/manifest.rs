//! The manifest commands: verify, inspect, and check for a downgrade.
use vstd::prelude::*;

use crate::json;
use crate::json::{Json, JsonObject, JsonValue};
use crate::operator::trust;
use crate::operator::trust::CliError;
use crate::qrse::combiner;
use crate::qrse::combiner::KemSuite;
use crate::qrse::crypto::DeterministicVerifier;
use crate::qrse::downgrade;
use crate::qrse::downgrade::{DowngradeVerdict, DowngradeVerdictView, VersionFloor};
use crate::qrse::keyslot::{Keyslot, KeyslotKindView, KeyslotView};
use crate::qrse::manifest;
use crate::qrse::manifest::{
    ManifestError, ManifestSignature, ManifestVerdict, ManifestView, QrsdManifest,
};
use crate::storage::key_hierarchy;
use crate::text;

verus! {

/// A signature with what the operator trusts of it.
pub open spec fn checked_signature(
    s: ManifestSignature,
    pairs: Seq<(Seq<char>, Seq<char>)>,
) -> JsonValue {
    JsonValue::Object(
        Seq::empty().push(("algorithm"@, JsonValue::Text(s.algorithm@))).push(
            ("have_trust"@, JsonValue::Bool(trust::seed_of(pairs, s.key_id@) is Some)),
        ).push(("key_id"@, JsonValue::Text(s.key_id@))).push(
            ("post_quantum"@, JsonValue::Bool(manifest::pq_algorithm(s.algorithm@))),
        ).push(("purpose"@, JsonValue::Text(s.purpose@))),
    )
}

/// The signatures with what the operator trusts of them.
pub open spec fn checked_signatures(
    sigs: Seq<ManifestSignature>,
    pairs: Seq<(Seq<char>, Seq<char>)>,
) -> JsonValue {
    JsonValue::List(sigs.map_values(|s: ManifestSignature| checked_signature(s, pairs)))
}

fn checked_signatures_value(sigs: &Vec<ManifestSignature>, pairs: &Vec<(String, String)>) -> (r:
    Json)
    ensures
        r@ == checked_signatures(sigs@, trust::pairs_view(pairs@)),
{
    let ghost p = trust::pairs_view(pairs@);
    let mut out: Vec<Json> = Vec::new();
    let mut i: usize = 0;
    while i < sigs.len()
        invariant
            i <= sigs@.len(),
            p == trust::pairs_view(pairs@),
            out@.len() == i,
            forall|k: int| 0 <= k < i ==> (#[trigger] out@[k])@ == checked_signature(sigs@[k], p),
        decreases sigs@.len() - i,
    {
        let s = &sigs[i];
        let mut o = JsonObject::new();
        o.put_text("algorithm", s.algorithm.as_str());
        o.put_bool("have_trust", trust::find_seed(pairs, s.key_id.as_str()).is_some());
        o.put_text("key_id", s.key_id.as_str());
        o.put_bool("post_quantum", manifest::is_pq_signature_alg(s.algorithm.as_str()));
        o.put_text("purpose", s.purpose.as_str());
        out.push(o.finish());
        i = i + 1;
    }
    let r = json::list_value(out);
    assert(r@->List_0 =~= checked_signatures(sigs@, p)->List_0);
    r
}

/// What is shown of a manifest that was verified.
pub open spec fn verified_view(
    m: ManifestView,
    purposes: Seq<Seq<char>>,
    pairs: Seq<(Seq<char>, Seq<char>)>,
) -> JsonValue {
    JsonValue::Object(
        Seq::empty().push(
            (
                "min_boot_manifest_version"@,
                JsonValue::Num(m.boot_policy.minimum_boot_manifest_version as nat),
            ),
        ).push(("result"@, JsonValue::Text("pq_verified"@))).push(
            ("signatures"@, checked_signatures(m.signatures, pairs)),
        ).push(("verified_purposes"@, json::text_list(purposes))).push(
            ("volume_id"@, JsonValue::Text(m.volume_id@)),
        ),
    )
}

/// What is shown of a manifest that was not verified.
pub open spec fn denied_view(
    m: ManifestView,
    result: Seq<char>,
    reason: Seq<char>,
    pairs: Seq<(Seq<char>, Seq<char>)>,
) -> JsonValue {
    JsonValue::Object(
        Seq::empty().push(("denied"@, JsonValue::Bool(true))).push(
            ("reason"@, JsonValue::Text(reason)),
        ).push(("result"@, JsonValue::Text(result))).push(
            ("signatures"@, checked_signatures(m.signatures, pairs)),
        ).push(("volume_id"@, JsonValue::Text(m.volume_id@))),
    )
}

/// What is said of a manifest with classical signatures only.
pub open spec fn classical_only_reason() -> Seq<char> {
    "manifest is only classically signed; a post-quantum (ml-dsa/slh-dsa) signature is required"@
}

/// The outcome of a verification for the operator.
pub open spec fn verification_shown(
    m: ManifestView,
    refs: Seq<&DeterministicVerifier>,
    pairs: Seq<(Seq<char>, Seq<char>)>,
    r: Result<String, CliError>,
) -> bool {
    match m.verdict(refs) {
        ManifestVerdict::Verified(purposes) => r matches Ok(shown) && shown@ == json::pretty(
            verified_view(m, purposes, pairs),
            Seq::empty(),
        ),
        ManifestVerdict::ClassicalOnly => r matches Err(e) && e.code == 2 && e.message@
            == json::pretty(
            denied_view(m, "transition_classical_only"@, classical_only_reason(), pairs),
            Seq::empty(),
        ),
        verdict => r matches Err(e) && e.code == 2 && exists|why: ManifestError| #[trigger]
            m.explains(verdict, why) && e.message@ == json::pretty(
                denied_view(m, "denied"@, why.text(), pairs),
                Seq::empty(),
            ),
    }
}

/// The document of a manifest that was not verified.
fn denied_text(m: &QrsdManifest, result: &str, reason: &str, signatures: Json, pairs: Ghost<
    Seq<(Seq<char>, Seq<char>)>,
>) -> (r: String)
    requires
        signatures@ == checked_signatures(m@.signatures, pairs@),
    ensures
        r@ == json::pretty(denied_view(m@, result@, reason@, pairs@), Seq::empty()),
{
    let mut o = JsonObject::new();
    o.put_bool("denied", true);
    o.put_text("reason", reason);
    o.put_text("result", result);
    o.put("signatures", signatures);
    o.put_text("volume_id", m.volume_id.as_str());
    o.finish().to_pretty()
}

/// Verify a manifest under the trust material of the command line. A
/// post-quantum signature is required; anything less is denied with code 2.
pub fn manifest_verify(m: &QrsdManifest, entries: &[String]) -> (r: Result<String, CliError>)
    ensures
        if !trust::well_formed(entries@) {
            r matches Err(e) && trust::reports_malformed(entries@, e)
        } else {
            exists|refs: Seq<&DeterministicVerifier>, vs: Seq<DeterministicVerifier>|
                {
                    &&& #[trigger] trust::refer_to(refs, vs)
                    &&& trust::built(vs, m@.signatures, trust::pairs_of(entries@))
                    &&& verification_shown(m@, refs, trust::pairs_of(entries@), r)
                }
        },
{
    let pairs = match trust::parse_trust(entries) {
        Ok(p) => p,
        Err(e) => {
            return Err(e);
        },
    };
    let holders = trust::build_verifiers(m, &pairs);
    let verifiers = trust::refs_of(&holders);
    let ghost p = trust::pairs_of(entries@);
    assert(trust::refer_to(verifiers@, holders@));
    assert(trust::built(holders@, m@.signatures, p));
    let signatures = checked_signatures_value(&m.signatures, &pairs);
    match m.verify(verifiers.as_slice()) {
        Ok(v) => {
            let mut purposes: Vec<String> = Vec::new();
            let vp = v.verified_purposes();
            let mut i: usize = 0;
            while i < vp.len()
                invariant
                    i <= vp@.len(),
                    purposes@.len() == i,
                    forall|k: int| 0 <= k < i ==> (#[trigger] purposes@[k])@ == vp@[k]@,
                decreases vp@.len() - i,
            {
                purposes.push(vp[i].clone());
                i = i + 1;
            }
            assert(text::views(purposes@) =~= v.purposes());
            let mut o = JsonObject::new();
            o.put_num("min_boot_manifest_version", v.min_boot_manifest_version());
            o.put_text("result", "pq_verified");
            o.put("signatures", signatures);
            o.put("verified_purposes", json::text_list_value(&purposes));
            o.put_text("volume_id", m.volume_id.as_str());
            let shown = o.finish().to_pretty();
            assert(verification_shown(m@, verifiers@, p, Ok::<String, CliError>(shown)));
            Ok(shown)
        },
        Err(why) => {
            let message = match &why {
                ManifestError::InsufficientPostQuantum => denied_text(
                    m,
                    "transition_classical_only",
                    "manifest is only classically signed; a post-quantum (ml-dsa/slh-dsa) signature is required",
                    signatures,
                    Ghost(p),
                ),
                other => denied_text(
                    m,
                    "denied",
                    other.message().as_str(),
                    signatures,
                    Ghost(p),
                ),
            };
            let e = CliError { code: 2, message };
            assert(m@.explains(m@.verdict(verifiers@), why));
            assert(verification_shown(m@, verifiers@, p, Err::<String, CliError>(e)));
            Err(e)
        },
    }
}

/// What is shown of a keyslot. A hybrid one shows its suite as well.
pub open spec fn keyslot_view(k: KeyslotView) -> JsonValue {
    let front = Seq::empty().push(("classical_only"@, JsonValue::Bool(k.no_pqc_leg()))).push(
        ("is_hybrid"@, JsonValue::Bool(k.hybrid())),
    );
    let with_suite = match k.suite() {
        Some(s) => front.push(("kem_suite"@, JsonValue::Text(s.wire()))),
        None => front,
    };
    JsonValue::Object(
        with_suite.push(("kind"@, JsonValue::Text(mechanism(k.kind)))).push(
            ("slot"@, JsonValue::Num(k.slot as nat)),
        ).push(("status"@, JsonValue::Text(k.status.wire()))),
    )
}

/// The name of a keyslot's mechanism.
pub open spec fn mechanism(kind: KeyslotKindView) -> Seq<char> {
    match kind {
        KeyslotKindView::Argon2idPassphrase { .. } => "argon2id_passphrase"@,
        KeyslotKindView::Tpm2Sealed { .. } => "tpm2_sealed"@,
        KeyslotKindView::HybridRemoteKms { .. } => "hybrid_remote_kms"@,
        KeyslotKindView::ThresholdRecovery { .. } => "threshold_recovery"@,
    }
}

/// What is shown of a keyslot.
pub fn keyslot_summary(slot: &Keyslot) -> (r: Json)
    ensures
        r@ == keyslot_view(slot@),
{
    let mut o = JsonObject::new();
    o.put_bool("classical_only", slot.classical_only());
    o.put_bool("is_hybrid", slot.is_hybrid());
    if let Some(suite) = slot.kem_suite() {
        o.put_text("kem_suite", suite.canonical().as_str());
    }
    o.put_text("kind", key_hierarchy::keyslot_kind_label(&slot.kind));
    o.put_num("slot", slot.slot as u64);
    o.put_text("status", slot.status.as_str());
    o.finish()
}

fn keyslots_value(slots: &Vec<Keyslot>) -> (r: Json)
    ensures
        r@ == JsonValue::List(
            crate::qrse::keyslot::keyslots_view(slots@).map_values(
                |k: KeyslotView| keyslot_view(k),
            ),
        ),
{
    let ghost want = crate::qrse::keyslot::keyslots_view(slots@).map_values(
        |k: KeyslotView| keyslot_view(k),
    );
    let mut out: Vec<Json> = Vec::new();
    let mut i: usize = 0;
    while i < slots.len()
        invariant
            i <= slots@.len(),
            out@.len() == i,
            forall|k: int| 0 <= k < i ==> (#[trigger] out@[k])@ == keyslot_view(slots@[k]@),
        decreases slots@.len() - i,
    {
        out.push(keyslot_summary(&slots[i]));
        i = i + 1;
    }
    let r = json::list_value(out);
    assert(r@->List_0 =~= want);
    r
}

/// What is shown of a signature.
pub open spec fn plain_signature(s: ManifestSignature) -> JsonValue {
    JsonValue::Object(
        Seq::empty().push(("algorithm"@, JsonValue::Text(s.algorithm@))).push(
            ("key_id"@, JsonValue::Text(s.key_id@)),
        ).push(
            ("post_quantum"@, JsonValue::Bool(manifest::pq_algorithm(s.algorithm@))),
        ).push(("purpose"@, JsonValue::Text(s.purpose@))),
    )
}

/// Some signature is of a post-quantum algorithm.
pub open spec fn carries_pq(sigs: Seq<ManifestSignature>) -> bool {
    exists|i: int| 0 <= i < sigs.len() && manifest::pq_algorithm((#[trigger] sigs[i]).algorithm@)
}

fn plain_signatures_value(sigs: &Vec<ManifestSignature>) -> (r: (Json, bool))
    ensures
        r.0@ == JsonValue::List(sigs@.map_values(|s: ManifestSignature| plain_signature(s))),
        r.1 == carries_pq(sigs@),
{
    let mut any_pq = false;
    let mut out: Vec<Json> = Vec::new();
    let mut i: usize = 0;
    while i < sigs.len()
        invariant
            i <= sigs@.len(),
            out@.len() == i,
            forall|k: int| 0 <= k < i ==> (#[trigger] out@[k])@ == plain_signature(sigs@[k]),
            any_pq == exists|k: int|
                0 <= k < i && manifest::pq_algorithm((#[trigger] sigs@[k]).algorithm@),
        decreases sigs@.len() - i,
    {
        let s = &sigs[i];
        let pq = manifest::is_pq_signature_alg(s.algorithm.as_str());
        if pq {
            any_pq = true;
            assert(manifest::pq_algorithm(sigs@[i as int].algorithm@));
        }
        let mut o = JsonObject::new();
        o.put_text("algorithm", s.algorithm.as_str());
        o.put_text("key_id", s.key_id.as_str());
        o.put_bool("post_quantum", pq);
        o.put_text("purpose", s.purpose.as_str());
        out.push(o.finish());
        i = i + 1;
    }
    let r = json::list_value(out);
    assert(r@->List_0 =~= sigs@.map_values(|s: ManifestSignature| plain_signature(s)));
    (r, any_pq)
}

/// What is shown of a manifest.
pub open spec fn inspect_view(m: ManifestView) -> JsonValue {
    JsonValue::Object(
        Seq::empty().push(
            (
                "boot_policy"@,
                JsonValue::Object(
                    Seq::empty().push(
                        (
                            "measured_boot_required"@,
                            JsonValue::Bool(m.boot_policy.measured_boot_required),
                        ),
                    ).push(
                        (
                            "minimum_boot_manifest_version"@,
                            JsonValue::Num(m.boot_policy.minimum_boot_manifest_version as nat),
                        ),
                    ).push(
                        ("pcr_profile"@, json::text_list(text::views(m.boot_policy.pcr_profile))),
                    ).push(("policy_id"@, JsonValue::Text(m.boot_policy.policy_id@))).push(
                        (
                            "secure_boot_required"@,
                            JsonValue::Bool(m.boot_policy.secure_boot_required),
                        ),
                    ),
                ),
            ),
        ).push(("carries_pq_signature"@, JsonValue::Bool(carries_pq(m.signatures)))).push(
            ("created_at"@, JsonValue::Text(m.created_at@)),
        ).push(
            (
                "data_plane"@,
                JsonValue::Object(
                    Seq::empty().push(("cipher"@, JsonValue::Text(m.data_plane.cipher@))).push(
                        ("integrity_mode"@, JsonValue::Text(m.data_plane.mode@)),
                    ).push(
                        ("sector_size"@, JsonValue::Num(m.data_plane.sector_size as nat)),
                    ).push(
                        (
                            "xts_raw_key_bits"@,
                            JsonValue::Num(m.data_plane.xts_raw_key_bits as nat),
                        ),
                    ),
                ),
            ),
        ).push(("format"@, JsonValue::Text(m.format@))).push(
            (
                "key_hierarchy"@,
                JsonValue::Object(
                    Seq::empty().push(
                        ("active_dek_version"@, JsonValue::Num(m.active_dek_version as nat)),
                    ).push(
                        (
                            "keyslots"@,
                            JsonValue::List(
                                m.keyslots.map_values(|k: KeyslotView| keyslot_view(k)),
                            ),
                        ),
                    ).push(
                        (
                            "volume_master_key_version"@,
                            JsonValue::Num(m.volume_master_key_version as nat),
                        ),
                    ),
                ),
            ),
        ).push(
            (
                "signatures"@,
                JsonValue::List(
                    m.signatures.map_values(|s: ManifestSignature| plain_signature(s)),
                ),
            ),
        ).push(("volume_id"@, JsonValue::Text(m.volume_id@))),
    )
}

/// The facts of a manifest.
pub fn manifest_inspect(m: &QrsdManifest) -> (r: String)
    ensures
        r@ == json::pretty(inspect_view(m@), Seq::empty()),
{
    let (signatures, any_pq) = plain_signatures_value(&m.signatures);
    let mut boot = JsonObject::new();
    boot.put_bool("measured_boot_required", m.boot_policy.measured_boot_required);
    boot.put_num("minimum_boot_manifest_version", m.boot_policy.minimum_boot_manifest_version);
    boot.put("pcr_profile", json::text_list_value(&m.boot_policy.pcr_profile));
    boot.put_text("policy_id", m.boot_policy.policy_id.as_str());
    boot.put_bool("secure_boot_required", m.boot_policy.secure_boot_required);
    let mut plane = JsonObject::new();
    plane.put_text("cipher", m.data_plane.cipher.as_str());
    plane.put_text("integrity_mode", m.data_plane.integrity.mode.as_str());
    plane.put_num("sector_size", m.data_plane.sector_size as u64);
    plane.put_num("xts_raw_key_bits", m.data_plane.xts_raw_key_bits as u64);
    let mut keys = JsonObject::new();
    keys.put_num("active_dek_version", m.key_hierarchy.active_dek_version);
    keys.put("keyslots", keyslots_value(&m.key_hierarchy.keyslots));
    keys.put_num("volume_master_key_version", m.key_hierarchy.volume_master_key_version);
    let mut o = JsonObject::new();
    o.put("boot_policy", boot.finish());
    o.put_bool("carries_pq_signature", any_pq);
    o.put_text("created_at", m.created_at.as_str());
    o.put("data_plane", plane.finish());
    o.put_text("format", m.format.as_str());
    o.put("key_hierarchy", keys.finish());
    o.put("signatures", signatures);
    o.put_text("volume_id", m.volume_id.as_str());
    o.finish().to_pretty()
}

/// What is shown of a downgrade verdict.
pub open spec fn verdict_view(v: DowngradeVerdictView) -> JsonValue {
    match v {
        DowngradeVerdictView::Accepted => JsonValue::Object(
            Seq::empty().push(("verdict"@, JsonValue::Text("ok"@))),
        ),
        DowngradeVerdictView::RejectedStaleVersion { found, floor } => JsonValue::Object(
            Seq::empty().push(("floor"@, JsonValue::Num(floor as nat))).push(
                ("found"@, JsonValue::Num(found as nat)),
            ).push(("verdict"@, JsonValue::Text("rejected_stale_version"@))),
        ),
        DowngradeVerdictView::RejectedClassicalOnly => JsonValue::Object(
            Seq::empty().push(("verdict"@, JsonValue::Text("rejected_classical_only"@))),
        ),
        DowngradeVerdictView::RejectedSuiteDowngrade { from, to } => JsonValue::Object(
            Seq::empty().push(("from"@, JsonValue::Text(from))).push(
                ("to"@, JsonValue::Text(to)),
            ).push(("verdict"@, JsonValue::Text("rejected_suite_downgrade"@))),
        ),
    }
}

fn verdict_value(v: &DowngradeVerdict) -> (r: Json)
    ensures
        r@ == verdict_view(v@),
{
    let mut o = JsonObject::new();
    match v {
        DowngradeVerdict::Accepted => {
            o.put_text("verdict", "ok");
        },
        DowngradeVerdict::RejectedStaleVersion { found, floor } => {
            o.put_num("floor", *floor);
            o.put_num("found", *found);
            o.put_text("verdict", "rejected_stale_version");
        },
        DowngradeVerdict::RejectedClassicalOnly => {
            o.put_text("verdict", "rejected_classical_only");
        },
        DowngradeVerdict::RejectedSuiteDowngrade { from, to } => {
            o.put_text("from", from.as_str());
            o.put_text("to", to.as_str());
            o.put_text("verdict", "rejected_suite_downgrade");
        },
    }
    o.finish()
}

/// What is shown of a downgrade check.
pub open spec fn downgrade_view(
    m: ManifestView,
    floor: u64,
    counter: u64,
    allow_classical_only: bool,
    verdict: DowngradeVerdictView,
) -> JsonValue {
    JsonValue::Object(
        Seq::empty().push(("allow_classical_only"@, JsonValue::Bool(allow_classical_only))).push(
            ("monotonic_counter"@, JsonValue::Num(counter as nat)),
        ).push(("ok"@, JsonValue::Bool(verdict is Accepted))).push(
            ("result"@, verdict_view(verdict)),
        ).push(("tenant_floor"@, JsonValue::Num(floor as nat))).push(
            ("volume_id"@, JsonValue::Text(m.volume_id@)),
        ),
    )
}

/// What is shown when a manifest is not verified before a downgrade check.
pub open spec fn verify_denied_view(reason: Seq<char>) -> JsonValue {
    JsonValue::Object(
        Seq::empty().push(("denied"@, JsonValue::Bool(true))).push(
            ("reason"@, JsonValue::Text(reason)),
        ).push(("result"@, JsonValue::Text("verify_denied"@))),
    )
}

/// The floor that the operator's check uses: a post-quantum path is required,
/// and its absence is tolerated only where that is asked for.
pub open spec fn operator_floor(floor: u64, allow_classical_only: bool) -> VersionFloor {
    VersionFloor {
        tenant_min_manifest_version: floor,
        require_pqc_signature: true,
        allow_classical_only,
    }
}

/// The outcome of a downgrade check for the operator.
pub open spec fn downgrade_shown(
    m: ManifestView,
    refs: Seq<&DeterministicVerifier>,
    floor: u64,
    counter: u64,
    allow_classical_only: bool,
    r: Result<String, CliError>,
) -> bool {
    match m.verdict(refs) {
        ManifestVerdict::Verified(_) => {
            let verdict = downgrade::downgrade_of(
                m,
                operator_floor(floor, allow_classical_only),
                counter,
            );
            let shown = json::pretty(
                downgrade_view(m, floor, counter, allow_classical_only, verdict),
                Seq::empty(),
            );
            if verdict is Accepted {
                r matches Ok(s) && s@ == shown
            } else {
                r matches Err(e) && e.code == 3 && e.message@ == shown
            }
        },
        verdict => r matches Err(e) && e.code == 2 && exists|why: ManifestError| #[trigger]
            m.explains(verdict, why) && e.message@ == json::pretty(
                verify_denied_view(why.text()),
                Seq::empty(),
            ),
    }
}

/// Check a manifest for a downgrade against a floor and the device's counter.
/// The manifest has to verify first; a manifest that does not is denied with
/// code 2, a downgrade with code 3.
pub fn downgrade_check(
    m: &QrsdManifest,
    floor: u64,
    counter: u64,
    allow_classical_only: bool,
    entries: &[String],
) -> (r: Result<String, CliError>)
    ensures
        if !trust::well_formed(entries@) {
            r matches Err(e) && trust::reports_malformed(entries@, e)
        } else {
            exists|refs: Seq<&DeterministicVerifier>, vs: Seq<DeterministicVerifier>|
                {
                    &&& #[trigger] trust::refer_to(refs, vs)
                    &&& trust::built(vs, m@.signatures, trust::pairs_of(entries@))
                    &&& downgrade_shown(m@, refs, floor, counter, allow_classical_only, r)
                }
        },
{
    let pairs = match trust::parse_trust(entries) {
        Ok(p) => p,
        Err(e) => {
            return Err(e);
        },
    };
    let holders = trust::build_verifiers(m, &pairs);
    let verifiers = trust::refs_of(&holders);
    assert(trust::refer_to(verifiers@, holders@));
    let verified = match m.verify(verifiers.as_slice()) {
        Ok(v) => v,
        Err(why) => {
            let mut o = JsonObject::new();
            o.put_bool("denied", true);
            o.put_text("reason", why.message().as_str());
            o.put_text("result", "verify_denied");
            let e = CliError { code: 2, message: o.finish().to_pretty() };
            assert(m@.explains(m@.verdict(verifiers@), why));
            assert(downgrade_shown(
                m@,
                verifiers@,
                floor,
                counter,
                allow_classical_only,
                Err::<String, CliError>(e),
            ));
            return Err(e);
        },
    };
    let policy = VersionFloor {
        tenant_min_manifest_version: floor,
        require_pqc_signature: true,
        allow_classical_only,
    };
    let verdict = downgrade::check(&verified, &policy, counter);
    let ok = verdict.is_ok();
    let mut o = JsonObject::new();
    o.put_bool("allow_classical_only", allow_classical_only);
    o.put_num("monotonic_counter", counter);
    o.put_bool("ok", ok);
    o.put("result", verdict_value(&verdict));
    o.put_num("tenant_floor", floor);
    o.put_text("volume_id", m.volume_id.as_str());
    let shown = o.finish().to_pretty();
    let r = if ok {
        Ok(shown)
    } else {
        Err(CliError { code: 3, message: shown })
    };
    assert(downgrade_shown(m@, verifiers@, floor, counter, allow_classical_only, r));
    r
}

/// What is shown of a suite.
pub open spec fn suite_view(
    profile: Seq<char>,
    classical: Seq<char>,
    pqc: Seq<char>,
    combiner: Seq<char>,
) -> JsonValue {
    JsonValue::Object(
        Seq::empty().push(
            ("canonical"@, JsonValue::Text(classical + "+"@ + pqc + "+"@ + combiner)),
        ).push(("classical"@, JsonValue::Text(classical))).push(
            ("combiner"@, JsonValue::Text(combiner)),
        ).push(("pqc"@, JsonValue::Text(pqc))).push(("profile"@, JsonValue::Text(profile))),
    )
}

fn suite_value(profile: &str, s: &KemSuite) -> (r: Json)
    requires
        text::plain_name(s.classical@),
        text::plain_name(s.pqc@),
        text::plain_name(s.combiner@),
    ensures
        r@ == suite_view(profile@, s.classical@, s.pqc@, s.combiner@),
{
    let mut o = JsonObject::new();
    o.put_text("canonical", s.canonical().as_str());
    o.put_text("classical", s.classical.as_str());
    o.put_text("combiner", s.combiner.as_str());
    o.put_text("pqc", s.pqc.as_str());
    o.put_text("profile", profile);
    o.finish()
}

/// The suites that are known.
pub open spec fn suites_view() -> JsonValue {
    JsonValue::Object(
        Seq::empty().push(
            (
                "suites"@,
                JsonValue::List(
                    Seq::empty().push(
                        suite_view(
                            "transition_768"@,
                            "x25519"@,
                            "ml-kem-768"@,
                            "hkdf-sha384"@,
                        ),
                    ).push(
                        suite_view(
                            "high_assurance_1024"@,
                            "x25519"@,
                            "ml-kem-1024"@,
                            "hkdf-sha384"@,
                        ),
                    ),
                ),
            ),
        ),
    )
}

/// The suites that are known.
pub fn suites() -> (r: String)
    ensures
        r@ == json::pretty(suites_view(), Seq::empty()),
{
    proof {
        combiner::known_names_are_plain();
    }
    let mut list: Vec<Json> = Vec::new();
    list.push(suite_value("transition_768", &KemSuite::transition_768()));
    list.push(suite_value("high_assurance_1024", &KemSuite::high_assurance_1024()));
    let v = json::list_value(list);
    assert(v@->List_0 =~= suites_view()->Object_0[0].1->List_0);
    let mut o = JsonObject::new();
    o.put("suites", v);
    o.finish().to_pretty()
}

} // verus!
