//! Algorithm-agile keyslots.
//!
//! A volume can be unlocked through several independent keyslots, each backed
//! by a different mechanism: a passphrase-derived key, a TPM-sealed key, a
//! hybrid remote-KMS key, or a threshold recovery scheme. On disk a keyslot is
//! one flat object; its `kind` says which further members it has:
//!
//! ```json
//! { "slot": 2, "status": "active", "kind": "hybrid_remote_kms",
//!   "kem": { "classical": "x25519", "pqc": "ml-kem-768", "combiner": "hkdf-sha384" },
//!   "attestation": { "required": true, "accepted_tee": ["amd-sev-snp"],
//!                    "measurement_policy_ref": "pol-meas-v3" } }
//! ```
use vstd::prelude::*;

use crate::json;
use crate::json::{Json, JsonObject, JsonValue};
use crate::qrse::combiner::KemSuite;
use crate::text;

verus! {

/// Lifecycle state of a keyslot.
#[derive(Debug, Clone, Copy, PartialEq, Eq, Structural)]
pub enum KeyslotStatus {
    /// Usable for unlock.
    Active,
    /// Administratively held until a break-glass procedure re-enables it.
    DisabledUntilBreakGlass,
    /// Permanently retired; kept only for audit.
    Retired,
}

impl KeyslotStatus {
    /// The state's wire name.
    pub open spec fn wire(self) -> Seq<char> {
        match self {
            KeyslotStatus::Active => "active"@,
            KeyslotStatus::DisabledUntilBreakGlass => "disabled_until_break_glass"@,
            KeyslotStatus::Retired => "retired"@,
        }
    }

    /// The state's wire name.
    pub fn as_str(self) -> (r: &'static str)
        ensures
            r@ == self.wire(),
    {
        match self {
            KeyslotStatus::Active => "active",
            KeyslotStatus::DisabledUntilBreakGlass => "disabled_until_break_glass",
            KeyslotStatus::Retired => "retired",
        }
    }
}

/// Argon2id passphrase KDF parameters.
#[derive(Debug, PartialEq, Eq)]
pub struct Argon2idKdf {
    pub algorithm: String,
    pub memory_kib: u32,
    pub time_cost: u32,
    pub parallelism: u32,
}

impl Clone for Argon2idKdf {
    fn clone(&self) -> (r: Self)
        ensures
            r == *self,
    {
        Argon2idKdf {
            algorithm: self.algorithm.clone(),
            memory_kib: self.memory_kib,
            time_cost: self.time_cost,
            parallelism: self.parallelism,
        }
    }
}

/// Key-wrapping descriptor for a passphrase keyslot.
#[derive(Debug, PartialEq, Eq)]
pub struct WrapSpec {
    pub algorithm: String,
    pub wrapped_key_ref: String,
}

impl Clone for WrapSpec {
    fn clone(&self) -> (r: Self)
        ensures
            r == *self,
    {
        WrapSpec {
            algorithm: self.algorithm.clone(),
            wrapped_key_ref: self.wrapped_key_ref.clone(),
        }
    }
}

/// Attestation requirements for a hybrid remote-KMS keyslot.
#[derive(Debug, PartialEq, Eq)]
pub struct KmsAttestation {
    pub required: bool,
    pub accepted_tee: Vec<String>,
    pub measurement_policy_ref: String,
}

/// The content of a [`KmsAttestation`].
pub struct KmsAttestationView {
    pub required: bool,
    pub accepted_tee: Seq<String>,
    pub measurement_policy_ref: String,
}

impl View for KmsAttestation {
    type V = KmsAttestationView;

    open spec fn view(&self) -> KmsAttestationView {
        KmsAttestationView {
            required: self.required,
            accepted_tee: self.accepted_tee@,
            measurement_policy_ref: self.measurement_policy_ref,
        }
    }
}

impl Clone for KmsAttestation {
    fn clone(&self) -> (r: Self)
        ensures
            r@ == self@,
    {
        KmsAttestation {
            required: self.required,
            accepted_tee: self.accepted_tee.clone(),
            measurement_policy_ref: self.measurement_policy_ref.clone(),
        }
    }
}

/// The mechanism backing a keyslot, with what it needs.
#[derive(Debug, PartialEq, Eq)]
pub enum KeyslotKind {
    /// Passphrase-derived key (Argon2id) wrapping the next key in the chain.
    Argon2idPassphrase { kdf: Argon2idKdf, wrap: WrapSpec },
    /// TPM2-sealed key bound to a PCR policy.
    Tpm2Sealed { pcrs: Vec<String>, requires_pin: bool, signed_pcr_policy: bool },
    /// Hybrid classical and post-quantum key released by a remote KMS after
    /// attestation.
    HybridRemoteKms { kem: KemSuite, attestation: KmsAttestation },
    /// Threshold (m-of-n) recovery scheme.
    ThresholdRecovery { scheme: String, m: u32, n: u32 },
}

/// The content of a [`KeyslotKind`].
pub enum KeyslotKindView {
    Argon2idPassphrase { kdf: Argon2idKdf, wrap: WrapSpec },
    Tpm2Sealed { pcrs: Seq<String>, requires_pin: bool, signed_pcr_policy: bool },
    HybridRemoteKms { kem: KemSuite, attestation: KmsAttestationView },
    ThresholdRecovery { scheme: String, m: u32, n: u32 },
}

impl View for KeyslotKind {
    type V = KeyslotKindView;

    open spec fn view(&self) -> KeyslotKindView {
        match *self {
            KeyslotKind::Argon2idPassphrase { kdf, wrap } => KeyslotKindView::Argon2idPassphrase {
                kdf,
                wrap,
            },
            KeyslotKind::Tpm2Sealed { pcrs, requires_pin, signed_pcr_policy } =>
                KeyslotKindView::Tpm2Sealed { pcrs: pcrs@, requires_pin, signed_pcr_policy },
            KeyslotKind::HybridRemoteKms { kem, attestation } => KeyslotKindView::HybridRemoteKms {
                kem,
                attestation: attestation@,
            },
            KeyslotKind::ThresholdRecovery { scheme, m, n } => KeyslotKindView::ThresholdRecovery {
                scheme,
                m,
                n,
            },
        }
    }
}

impl Clone for KeyslotKind {
    fn clone(&self) -> (r: Self)
        ensures
            r@ == self@,
    {
        match self {
            KeyslotKind::Argon2idPassphrase { kdf, wrap } => KeyslotKind::Argon2idPassphrase {
                kdf: kdf.clone(),
                wrap: wrap.clone(),
            },
            KeyslotKind::Tpm2Sealed { pcrs, requires_pin, signed_pcr_policy } =>
                KeyslotKind::Tpm2Sealed {
                    pcrs: pcrs.clone(),
                    requires_pin: *requires_pin,
                    signed_pcr_policy: *signed_pcr_policy,
                },
            KeyslotKind::HybridRemoteKms { kem, attestation } => KeyslotKind::HybridRemoteKms {
                kem: kem.clone(),
                attestation: attestation.clone(),
            },
            KeyslotKind::ThresholdRecovery { scheme, m, n } => KeyslotKind::ThresholdRecovery {
                scheme: scheme.clone(),
                m: *m,
                n: *n,
            },
        }
    }
}

/// A single algorithm-agile keyslot.
#[derive(Debug, PartialEq, Eq)]
pub struct Keyslot {
    pub slot: u32,
    pub status: KeyslotStatus,
    /// The mechanism and what it needs.
    pub kind: KeyslotKind,
}

/// The content of a [`Keyslot`].
pub struct KeyslotView {
    pub slot: u32,
    pub status: KeyslotStatus,
    pub kind: KeyslotKindView,
}

impl View for Keyslot {
    type V = KeyslotView;

    open spec fn view(&self) -> KeyslotView {
        KeyslotView { slot: self.slot, status: self.status, kind: self.kind@ }
    }
}

impl Clone for Keyslot {
    fn clone(&self) -> (r: Self)
        ensures
            r@ == self@,
    {
        Keyslot { slot: self.slot, status: self.status, kind: self.kind.clone() }
    }
}

/// The contents of a list of keyslots.
pub open spec fn keyslots_view(v: Seq<Keyslot>) -> Seq<KeyslotView> {
    v.map_values(|k: Keyslot| k@)
}

/// A copy of a list of keyslots.
pub fn clone_keyslots(v: &Vec<Keyslot>) -> (r: Vec<Keyslot>)
    ensures
        keyslots_view(r@) == keyslots_view(v@),
{
    let mut out: Vec<Keyslot> = Vec::new();
    let mut i: usize = 0;
    while i < v.len()
        invariant
            i <= v@.len(),
            out@.len() == i,
            forall|k: int| 0 <= k < i ==> (#[trigger] out@[k])@ == v@[k]@,
        decreases v@.len() - i,
    {
        out.push(v[i].clone());
        i = i + 1;
    }
    assert(keyslots_view(out@) =~= keyslots_view(v@));
    out
}

impl KeyslotView {
    /// A hybrid remote-KMS slot.
    pub open spec fn hybrid(self) -> bool {
        self.kind is HybridRemoteKms
    }

    /// No post-quantum leg: any mechanism but the hybrid one, or a hybrid one
    /// whose post-quantum algorithm is blank.
    pub open spec fn no_pqc_leg(self) -> bool {
        match self.kind {
            KeyslotKindView::HybridRemoteKms { kem, .. } => text::blank(kem.pqc@),
            _ => true,
        }
    }

    /// The suite of a hybrid slot.
    pub open spec fn suite(self) -> Option<KemSuite> {
        match self.kind {
            KeyslotKindView::HybridRemoteKms { kem, .. } => Some(kem),
            _ => None,
        }
    }
}

impl Keyslot {
    /// Construct a keyslot from its parts.
    pub fn new(slot: u32, status: KeyslotStatus, kind: KeyslotKind) -> (r: Self)
        ensures
            r == (Keyslot { slot, status, kind }),
    {
        Keyslot { slot, status, kind }
    }

    /// Whether this slot may currently be used for unlock.
    pub fn is_active(&self) -> (r: bool)
        ensures
            r == (self.status == KeyslotStatus::Active),
    {
        self.status == KeyslotStatus::Active
    }

    /// Whether this slot is a hybrid remote-KMS slot (carries a KEM suite).
    pub fn is_hybrid(&self) -> (r: bool)
        ensures
            r == self@.hybrid(),
    {
        matches!(self.kind, KeyslotKind::HybridRemoteKms { .. })
    }

    /// Whether this slot provides no post-quantum leg. A hybrid slot does so
    /// only if its post-quantum algorithm has been stripped, which is the
    /// suite downgrade that an unlock has to reject.
    pub fn classical_only(&self) -> (r: bool)
        ensures
            r == self@.no_pqc_leg(),
    {
        match &self.kind {
            KeyslotKind::HybridRemoteKms { kem, .. } => text::is_blank(kem.pqc.as_str()),
            _ => true,
        }
    }

    /// The hybrid KEM suite, if this is a hybrid remote-KMS slot.
    pub fn kem_suite(&self) -> (r: Option<&KemSuite>)
        ensures
            match r {
                Some(s) => self@.suite() == Some(*s),
                None => self@.suite() is None,
            },
    {
        match &self.kind {
            KeyslotKind::HybridRemoteKms { kem, .. } => Some(kem),
            _ => None,
        }
    }
}

// ------------------------------------------------------------------- JSON

/// A KEM suite as a document.
pub open spec fn suite_json(s: KemSuite) -> JsonValue {
    JsonValue::Object(
        Seq::empty().push(("classical"@, JsonValue::Text(s.classical@))).push(
            ("pqc"@, JsonValue::Text(s.pqc@)),
        ).push(("combiner"@, JsonValue::Text(s.combiner@))),
    )
}

/// A KEM suite as a document.
pub fn suite_value(s: &KemSuite) -> (r: Json)
    ensures
        r@ == suite_json(*s),
{
    let mut o = JsonObject::new();
    o.put_text("classical", s.classical.as_str());
    o.put_text("pqc", s.pqc.as_str());
    o.put_text("combiner", s.combiner.as_str());
    o.finish()
}

impl KeyslotView {
    /// The keyslot as one flat document.
    pub open spec fn json(self) -> JsonValue {
        let head = Seq::empty().push(("slot"@, JsonValue::Num(self.slot as nat))).push(
            ("status"@, JsonValue::Text(self.status.wire())),
        );
        JsonValue::Object(
            match self.kind {
                KeyslotKindView::Argon2idPassphrase { kdf, wrap } => head.push(
                    ("kind"@, JsonValue::Text("argon2id_passphrase"@)),
                ).push(
                    (
                        "kdf"@,
                        JsonValue::Object(
                            Seq::empty().push(
                                ("algorithm"@, JsonValue::Text(kdf.algorithm@)),
                            ).push(("memory_kib"@, JsonValue::Num(kdf.memory_kib as nat))).push(
                                ("time_cost"@, JsonValue::Num(kdf.time_cost as nat)),
                            ).push(("parallelism"@, JsonValue::Num(kdf.parallelism as nat))),
                        ),
                    ),
                ).push(
                    (
                        "wrap"@,
                        JsonValue::Object(
                            Seq::empty().push(
                                ("algorithm"@, JsonValue::Text(wrap.algorithm@)),
                            ).push(("wrapped_key_ref"@, JsonValue::Text(wrap.wrapped_key_ref@))),
                        ),
                    ),
                ),
                KeyslotKindView::Tpm2Sealed { pcrs, requires_pin, signed_pcr_policy } => head.push(
                    ("kind"@, JsonValue::Text("tpm2_sealed"@)),
                ).push(("pcrs"@, json::text_list(text::views(pcrs)))).push(
                    ("requires_pin"@, JsonValue::Bool(requires_pin)),
                ).push(("signed_pcr_policy"@, JsonValue::Bool(signed_pcr_policy))),
                KeyslotKindView::HybridRemoteKms { kem, attestation } => head.push(
                    ("kind"@, JsonValue::Text("hybrid_remote_kms"@)),
                ).push(("kem"@, suite_json(kem))).push(
                    (
                        "attestation"@,
                        JsonValue::Object(
                            Seq::empty().push(
                                ("required"@, JsonValue::Bool(attestation.required)),
                            ).push(
                                (
                                    "accepted_tee"@,
                                    json::text_list(text::views(attestation.accepted_tee)),
                                ),
                            ).push(
                                (
                                    "measurement_policy_ref"@,
                                    JsonValue::Text(attestation.measurement_policy_ref@),
                                ),
                            ),
                        ),
                    ),
                ),
                KeyslotKindView::ThresholdRecovery { scheme, m, n } => head.push(
                    ("kind"@, JsonValue::Text("threshold_recovery"@)),
                ).push(("scheme"@, JsonValue::Text(scheme@))).push(
                    ("m"@, JsonValue::Num(m as nat)),
                ).push(("n"@, JsonValue::Num(n as nat))),
            },
        )
    }
}

impl Keyslot {
    /// The keyslot as one flat document.
    pub fn to_value(&self) -> (r: Json)
        ensures
            r@ == self@.json(),
    {
        let mut o = JsonObject::new();
        o.put_num("slot", self.slot as u64);
        o.put_text("status", self.status.as_str());
        match &self.kind {
            KeyslotKind::Argon2idPassphrase { kdf, wrap } => {
                o.put_text("kind", "argon2id_passphrase");
                let mut k = JsonObject::new();
                k.put_text("algorithm", kdf.algorithm.as_str());
                k.put_num("memory_kib", kdf.memory_kib as u64);
                k.put_num("time_cost", kdf.time_cost as u64);
                k.put_num("parallelism", kdf.parallelism as u64);
                o.put("kdf", k.finish());
                let mut w = JsonObject::new();
                w.put_text("algorithm", wrap.algorithm.as_str());
                w.put_text("wrapped_key_ref", wrap.wrapped_key_ref.as_str());
                o.put("wrap", w.finish());
            },
            KeyslotKind::Tpm2Sealed { pcrs, requires_pin, signed_pcr_policy } => {
                o.put_text("kind", "tpm2_sealed");
                o.put("pcrs", json::text_list_value(pcrs));
                o.put_bool("requires_pin", *requires_pin);
                o.put_bool("signed_pcr_policy", *signed_pcr_policy);
            },
            KeyslotKind::HybridRemoteKms { kem, attestation } => {
                o.put_text("kind", "hybrid_remote_kms");
                o.put("kem", suite_value(kem));
                let mut a = JsonObject::new();
                a.put_bool("required", attestation.required);
                a.put("accepted_tee", json::text_list_value(&attestation.accepted_tee));
                a.put_text("measurement_policy_ref", attestation.measurement_policy_ref.as_str());
                o.put("attestation", a.finish());
            },
            KeyslotKind::ThresholdRecovery { scheme, m, n } => {
                o.put_text("kind", "threshold_recovery");
                o.put_text("scheme", scheme.as_str());
                o.put_num("m", *m as u64);
                o.put_num("n", *n as u64);
            },
        }
        o.finish()
    }
}

// ------------------------------------------------------------------- laws

/// A hybrid slot always names a suite, and no other slot does.
pub proof fn suite_iff_hybrid(k: KeyslotView)
    ensures
        k.suite() is Some <==> k.hybrid(),
        !k.hybrid() ==> k.no_pqc_leg(),
{
}

/// A keyslot's document holds its number, its status, its mechanism and, for a
/// hybrid slot, the three names of its suite.
pub proof fn document_pins_slot(a: KeyslotView, b: KeyslotView)
    requires
        a.json() == b.json(),
    ensures
        a.slot == b.slot,
        a.status == b.status,
        a.hybrid() == b.hybrid(),
        a.no_pqc_leg() == b.no_pqc_leg(),
        a.hybrid() ==> {
            &&& (a.suite()->0).classical@ == (b.suite()->0).classical@
            &&& (a.suite()->0).pqc@ == (b.suite()->0).pqc@
            &&& (a.suite()->0).combiner@ == (b.suite()->0).combiner@
        },
{
    reveal_strlit("active");
    reveal_strlit("disabled_until_break_glass");
    reveal_strlit("retired");
    reveal_strlit("argon2id_passphrase");
    reveal_strlit("tpm2_sealed");
    reveal_strlit("hybrid_remote_kms");
    reveal_strlit("threshold_recovery");
    let (p, q) = (a.json()->Object_0, b.json()->Object_0);
    assert(p[0] == q[0] && p[1] == q[1] && p[2] == q[2] && p[3] == q[3]);
    let (s, t) = (a.status.wire(), b.status.wire());
    assert(s == t);
    assert(s.len() == t.len());
    let (k, l) = (p[2].1->Text_0, q[2].1->Text_0);
    assert(k.len() == l.len());
    if a.hybrid() {
        assert(b.hybrid());
        let (u, v) = (suite_json(a.suite()->0)->Object_0, suite_json(b.suite()->0)->Object_0);
        assert(u == v);
        assert(u[0] == v[0] && u[1] == v[1] && u[2] == v[2]);
    }
}

} // verus!
