//! The combiner demonstration: two derivations from the same secrets, under
//! contexts that differ in the policy version only.
use vstd::prelude::*;

use crate::json;
use crate::json::{JsonObject, JsonValue};
use crate::operator::trust;
use crate::operator::trust::CliError;
use crate::primitives;
use crate::qrse::combiner;
use crate::qrse::combiner::{CombinerContext, KemSuite};
use crate::qrse::crypto;
use crate::qrse::crypto::{CryptoError, DeterministicKem, Kem, SharedSecret};
use crate::text;

verus! {

/// The secret of a stand-in exchange: the key pair is made from `key_seed`, the
/// encapsulation from `seed`.
pub open spec fn leg_secret(algorithm: Seq<char>, key_seed: Seq<u8>, seed: Seq<u8>) -> Seq<u8> {
    let root = crypto::kdf_spec("qrse:kem:root"@, seq![text::utf8(algorithm), key_seed]);
    let ek = crypto::kdf_spec("qrse:kem:ek"@, seq![root]);
    let r = crypto::kdf_spec("qrse:kem:r"@, seq![ek, seed]);
    let ct = crypto::kdf_spec("qrse:kem:ct"@, seq![ek, r]);
    crypto::kdf_spec("qrse:kem:ss"@, seq![ek, ct])
}

/// The secret of an exchange with `kem`.
fn run_leg(kem: &DeterministicKem, key_seed: &str, seed: &str) -> (r: SharedSecret)
    ensures
        r@ == leg_secret(kem.alg(), text::utf8(key_seed@), text::utf8(seed@)),
{
    let keys = kem.generate_keypair(key_seed.as_bytes());
    let out = kem.encapsulate(&keys.0, seed.as_bytes());
    out.1
}

/// `c` is the context of the demonstration, under this policy version.
pub open spec fn demo_context(c: CombinerContext, version: u64) -> bool {
    &&& c.volume_id@ == "urn:uuid:vol-demo"@
    &&& c.device_id@ == "pn52-lab-001"@
    &&& c.policy_id@ == "policy-prod"@
    &&& c.policy_version == version
    &&& c.algorithm_suite.classical@ == "x25519"@
    &&& c.algorithm_suite.pqc@ == "ml-kem-768"@
    &&& c.algorithm_suite.combiner@ == "hkdf-sha384"@
    &&& c.boot_measurement@ == "sha384:bootmeas-demo"@
}

/// The context of the demonstration.
fn make_context(version: u64) -> (r: CombinerContext)
    ensures
        demo_context(r, version),
{
    CombinerContext {
        volume_id: "urn:uuid:vol-demo".to_string(),
        device_id: "pn52-lab-001".to_string(),
        policy_id: "policy-prod".to_string(),
        policy_version: version,
        algorithm_suite: KemSuite::transition_768(),
        boot_measurement: "sha384:bootmeas-demo".to_string(),
    }
}

/// The key of the demonstration under a context, or why there is none.
pub open spec fn demo_key(c: CombinerContext) -> Result<Seq<u8>, CryptoError> {
    combiner::combine_spec(
        leg_secret(
            "x25519"@,
            text::utf8("qrsectl-demo-classical"@),
            text::utf8("qrsectl-demo-enc"@),
        ),
        leg_secret(
            "ml-kem-768"@,
            text::utf8("qrsectl-demo-pqc"@),
            text::utf8("qrsectl-demo-enc"@),
        ),
        c.encoded(),
        c,
        32,
    )
}

/// What is shown of the two keys.
pub open spec fn demo_view(a: Seq<u8>, b: Seq<u8>) -> JsonValue {
    JsonValue::Object(
        Seq::empty().push(("bound_to_context"@, JsonValue::Bool(a != b))).push(
            ("classical_leg"@, JsonValue::Text("x25519"@)),
        ).push(("combiner"@, JsonValue::Text("hkdf-sha384"@))).push(
            ("kdf"@, JsonValue::Text("hkdf-sha384"@)),
        ).push(("kek_len_bytes"@, JsonValue::Num(a.len()))).push(
            ("kek_policy_v42"@, JsonValue::Text(primitives::hex_text(a))),
        ).push(("kek_policy_v43"@, JsonValue::Text(primitives::hex_text(b)))).push(
            (
                "note"@,
                JsonValue::Text(
                    "changing policy_version (or any context field) yields a different KEK"@,
                ),
            ),
        ).push(("pqc_leg"@, JsonValue::Text("ml-kem-768"@))).push(
            (
                "suite"@,
                JsonValue::Text("x25519"@ + "+"@ + "ml-kem-768"@ + "+"@ + "hkdf-sha384"@),
            ),
        ),
    )
}

/// A derivation that failed.
pub open spec fn combine_failed(e: CryptoError, r: Result<String, CliError>) -> bool {
    r matches Err(shown) && shown.code == 1 && shown.message@ == "combine failed: "@ + e.text()
}

/// The outcome of the demonstration under two contexts.
pub open spec fn demo_shown(
    a: CombinerContext,
    b: CombinerContext,
    r: Result<String, CliError>,
) -> bool {
    match demo_key(a) {
        Err(e) => combine_failed(e, r),
        Ok(x) => match demo_key(b) {
            Err(e) => combine_failed(e, r),
            Ok(y) => r matches Ok(s) && s@ == json::pretty(demo_view(x, y), Seq::empty()),
        },
    }
}

/// Derive a key under two policy versions and show both.
pub fn combiner_demo() -> (r: Result<String, CliError>)
    ensures
        exists|a: CombinerContext, b: CombinerContext| #[trigger]
            demo_context(a, 42) && #[trigger] demo_context(b, 43) && demo_shown(a, b, r),
{
    let classical = DeterministicKem::x25519();
    let pqc = DeterministicKem::ml_kem_768();
    let ss_classical = run_leg(&classical, "qrsectl-demo-classical", "qrsectl-demo-enc");
    let ss_pqc = run_leg(&pqc, "qrsectl-demo-pqc", "qrsectl-demo-enc");
    let base = make_context(42);
    let bumped = make_context(43);
    assert(demo_context(base, 42) && demo_context(bumped, 43));
    let transcript = base.to_bytes();
    let kek = match combiner::hybrid_combine(
        &ss_classical,
        &ss_pqc,
        transcript.as_slice(),
        &base,
        32,
    ) {
        Ok(k) => k,
        Err(e) => {
            return Err(CliError::usage(text::joined("combine failed: ", e.message().as_str())));
        },
    };
    let bumped_transcript = bumped.to_bytes();
    let kek_bumped = match combiner::hybrid_combine(
        &ss_classical,
        &ss_pqc,
        bumped_transcript.as_slice(),
        &bumped,
        32,
    ) {
        Ok(k) => k,
        Err(e) => {
            return Err(CliError::usage(text::joined("combine failed: ", e.message().as_str())));
        },
    };
    let hex = kek.expose(trust::to_hex);
    let hex_bumped = kek_bumped.expose(trust::to_hex);
    assert(hex@ == primitives::hex_text(kek@));
    assert(hex_bumped@ == primitives::hex_text(kek_bumped@));
    let bound = !text::same(hex.as_str(), hex_bumped.as_str());
    proof {
        if hex@ == hex_bumped@ {
            primitives::hex_text_is_injective(kek@, kek_bumped@);
        }
    }
    proof {
        combiner::known_names_are_plain();
    }
    let mut o = JsonObject::new();
    o.put_bool("bound_to_context", bound);
    o.put_text("classical_leg", classical.algorithm());
    o.put_text("combiner", base.algorithm_suite.combiner.as_str());
    o.put_text("kdf", "hkdf-sha384");
    o.put_num("kek_len_bytes", kek.len() as u64);
    o.put_text("kek_policy_v42", hex.as_str());
    o.put_text("kek_policy_v43", hex_bumped.as_str());
    o.put_text("note", "changing policy_version (or any context field) yields a different KEK");
    o.put_text("pqc_leg", pqc.algorithm());
    o.put_text("suite", base.algorithm_suite.canonical().as_str());
    Ok(o.finish().to_pretty())
}

} // verus!
