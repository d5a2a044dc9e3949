//! The `qrsd-v1` disk manifest, its signing and its verification.
//!
//! A [`QrsdManifest`] is the signed, on-disk policy for a volume: data-plane
//! cipher, boot policy (with rollback protection), the key hierarchy and
//! keyslots, detached signatures, and an audit anchor.
//!
//! Signatures cover [`QrsdManifest::signing_bytes`], the canonical encoding of
//! everything but the signatures themselves, so a manifest can be signed again
//! without invalidating earlier signatures.
//!
//! [`QrsdManifest::verify`] fails closed and requires a post-quantum
//! signature: it yields a [`VerifiedManifest`] only when a valid ML-DSA or
//! SLH-DSA signature is there.
use vstd::prelude::*;

use crate::json;
use crate::json::{Json, JsonObject, JsonValue};
use crate::primitives;
use crate::qrse::crypto::{Signature, Signer, Verifier};
use crate::qrse::keyslot;
use crate::qrse::keyslot::{Keyslot, KeyslotView};
use crate::receipts::chain;
use crate::text;

verus! {

/// The fixed `format` discriminator for this manifest schema.
pub const QRSD_FORMAT: &'static str = "qrsd-v1";

/// Data-plane integrity policy.
#[derive(Debug, Clone, PartialEq, Eq)]
pub struct Integrity {
    pub mode: String,
    pub alternatives: Vec<String>,
}

/// Data-plane (bulk cipher) policy.
#[derive(Debug, PartialEq, Eq)]
pub struct DataPlane {
    pub cipher: String,
    pub xts_raw_key_bits: u32,
    pub sector_size: u32,
    pub integrity: Integrity,
}

/// The content of a [`DataPlane`].
pub struct DataPlaneView {
    pub cipher: String,
    pub xts_raw_key_bits: u32,
    pub sector_size: u32,
    pub mode: String,
    pub alternatives: Seq<String>,
}

impl View for DataPlane {
    type V = DataPlaneView;

    open spec fn view(&self) -> DataPlaneView {
        DataPlaneView {
            cipher: self.cipher,
            xts_raw_key_bits: self.xts_raw_key_bits,
            sector_size: self.sector_size,
            mode: self.integrity.mode,
            alternatives: self.integrity.alternatives@,
        }
    }
}

impl Clone for DataPlane {
    fn clone(&self) -> (r: Self)
        ensures
            r@ == self@,
    {
        DataPlane {
            cipher: self.cipher.clone(),
            xts_raw_key_bits: self.xts_raw_key_bits,
            sector_size: self.sector_size,
            integrity: Integrity {
                mode: self.integrity.mode.clone(),
                alternatives: self.integrity.alternatives.clone(),
            },
        }
    }
}

/// Rollback-protection binding (monotonic counter) for downgrade resistance.
#[derive(Debug, PartialEq, Eq)]
pub struct RollbackProtection {
    pub type_: String,
    pub counter_name: String,
}

impl Clone for RollbackProtection {
    fn clone(&self) -> (r: Self)
        ensures
            r == *self,
    {
        RollbackProtection { type_: self.type_.clone(), counter_name: self.counter_name.clone() }
    }
}

/// Boot policy the manifest is bound to.
#[derive(Debug, PartialEq, Eq)]
pub struct BootPolicy {
    pub policy_id: String,
    pub secure_boot_required: bool,
    pub measured_boot_required: bool,
    pub pcr_profile: Vec<String>,
    pub minimum_boot_manifest_version: u64,
    pub rollback_protection: RollbackProtection,
}

/// The content of a [`BootPolicy`].
pub struct BootPolicyView {
    pub policy_id: String,
    pub secure_boot_required: bool,
    pub measured_boot_required: bool,
    pub pcr_profile: Seq<String>,
    pub minimum_boot_manifest_version: u64,
    pub rollback_protection: RollbackProtection,
}

impl View for BootPolicy {
    type V = BootPolicyView;

    open spec fn view(&self) -> BootPolicyView {
        BootPolicyView {
            policy_id: self.policy_id,
            secure_boot_required: self.secure_boot_required,
            measured_boot_required: self.measured_boot_required,
            pcr_profile: self.pcr_profile@,
            minimum_boot_manifest_version: self.minimum_boot_manifest_version,
            rollback_protection: self.rollback_protection,
        }
    }
}

impl Clone for BootPolicy {
    fn clone(&self) -> (r: Self)
        ensures
            r@ == self@,
    {
        BootPolicy {
            policy_id: self.policy_id.clone(),
            secure_boot_required: self.secure_boot_required,
            measured_boot_required: self.measured_boot_required,
            pcr_profile: self.pcr_profile.clone(),
            minimum_boot_manifest_version: self.minimum_boot_manifest_version,
            rollback_protection: self.rollback_protection.clone(),
        }
    }
}

/// Key-hierarchy section: versions plus the keyslots themselves.
#[derive(Debug, Clone, PartialEq, Eq)]
pub struct ManifestKeyHierarchy {
    pub volume_master_key_version: u64,
    pub active_dek_version: u64,
    pub keyslots: Vec<Keyslot>,
}

/// Audit anchor section.
#[derive(Debug, PartialEq, Eq)]
pub struct Audit {
    pub last_rotation: String,
    pub last_attested_unlock_receipt: String,
    pub log_chain: String,
}

impl Clone for Audit {
    fn clone(&self) -> (r: Self)
        ensures
            r == *self,
    {
        Audit {
            last_rotation: self.last_rotation.clone(),
            last_attested_unlock_receipt: self.last_attested_unlock_receipt.clone(),
            log_chain: self.log_chain.clone(),
        }
    }
}

/// A detached manifest signature descriptor. A manifest carries a post-quantum
/// signature and, during the transition, possibly a classical one.
#[derive(Debug, PartialEq, Eq)]
pub struct ManifestSignature {
    pub purpose: String,
    pub algorithm: String,
    pub key_id: String,
    /// Hexadecimal detached signature over [`QrsdManifest::signing_bytes`].
    pub signature_ref: String,
    pub status: Option<String>,
    pub not_after: Option<String>,
}

impl Clone for ManifestSignature {
    fn clone(&self) -> (r: Self)
        ensures
            r == *self,
    {
        ManifestSignature {
            purpose: self.purpose.clone(),
            algorithm: self.algorithm.clone(),
            key_id: self.key_id.clone(),
            signature_ref: self.signature_ref.clone(),
            status: self.status.clone(),
            not_after: self.not_after.clone(),
        }
    }
}

/// The `qrsd-v1` on-disk volume manifest.
#[derive(Debug, PartialEq, Eq)]
pub struct QrsdManifest {
    pub format: String,
    pub volume_id: String,
    pub created_at: String,
    pub data_plane: DataPlane,
    pub boot_policy: BootPolicy,
    pub key_hierarchy: ManifestKeyHierarchy,
    pub signatures: Vec<ManifestSignature>,
    pub audit: Audit,
}

/// The content of a [`QrsdManifest`].
pub struct ManifestView {
    pub format: String,
    pub volume_id: String,
    pub created_at: String,
    pub data_plane: DataPlaneView,
    pub boot_policy: BootPolicyView,
    pub volume_master_key_version: u64,
    pub active_dek_version: u64,
    pub keyslots: Seq<KeyslotView>,
    pub signatures: Seq<ManifestSignature>,
    pub audit: Audit,
}

impl View for QrsdManifest {
    type V = ManifestView;

    open spec fn view(&self) -> ManifestView {
        ManifestView {
            format: self.format,
            volume_id: self.volume_id,
            created_at: self.created_at,
            data_plane: self.data_plane@,
            boot_policy: self.boot_policy@,
            volume_master_key_version: self.key_hierarchy.volume_master_key_version,
            active_dek_version: self.key_hierarchy.active_dek_version,
            keyslots: keyslot::keyslots_view(self.key_hierarchy.keyslots@),
            signatures: self.signatures@,
            audit: self.audit,
        }
    }
}

impl Clone for QrsdManifest {
    fn clone(&self) -> (r: Self)
        ensures
            r@ == self@,
    {
        QrsdManifest {
            format: self.format.clone(),
            volume_id: self.volume_id.clone(),
            created_at: self.created_at.clone(),
            data_plane: self.data_plane.clone(),
            boot_policy: self.boot_policy.clone(),
            key_hierarchy: ManifestKeyHierarchy {
                volume_master_key_version: self.key_hierarchy.volume_master_key_version,
                active_dek_version: self.key_hierarchy.active_dek_version,
                keyslots: keyslot::clone_keyslots(&self.key_hierarchy.keyslots),
            },
            signatures: self.signatures.clone(),
            audit: self.audit.clone(),
        }
    }
}

// ------------------------------------------------------------------- JSON

impl DataPlaneView {
    /// The policy as a document.
    pub open spec fn json(self) -> JsonValue {
        JsonValue::Object(
            Seq::empty().push(("cipher"@, JsonValue::Text(self.cipher@))).push(
                ("xts_raw_key_bits"@, JsonValue::Num(self.xts_raw_key_bits as nat)),
            ).push(("sector_size"@, JsonValue::Num(self.sector_size as nat))).push(
                (
                    "integrity"@,
                    JsonValue::Object(
                        Seq::empty().push(("mode"@, JsonValue::Text(self.mode@))).push(
                            ("alternatives"@, json::text_list(text::views(self.alternatives))),
                        ),
                    ),
                ),
            ),
        )
    }
}

impl DataPlane {
    fn to_value(&self) -> (r: Json)
        ensures
            r@ == self@.json(),
    {
        let mut o = JsonObject::new();
        o.put_text("cipher", self.cipher.as_str());
        o.put_num("xts_raw_key_bits", self.xts_raw_key_bits as u64);
        o.put_num("sector_size", self.sector_size as u64);
        let mut i = JsonObject::new();
        i.put_text("mode", self.integrity.mode.as_str());
        i.put("alternatives", json::text_list_value(&self.integrity.alternatives));
        o.put("integrity", i.finish());
        o.finish()
    }
}

impl BootPolicyView {
    /// The policy as a document.
    pub open spec fn json(self) -> JsonValue {
        JsonValue::Object(
            Seq::empty().push(("policy_id"@, JsonValue::Text(self.policy_id@))).push(
                ("secure_boot_required"@, JsonValue::Bool(self.secure_boot_required)),
            ).push(("measured_boot_required"@, JsonValue::Bool(self.measured_boot_required))).push(
                ("pcr_profile"@, json::text_list(text::views(self.pcr_profile))),
            ).push(
                (
                    "minimum_boot_manifest_version"@,
                    JsonValue::Num(self.minimum_boot_manifest_version as nat),
                ),
            ).push(
                (
                    "rollback_protection"@,
                    JsonValue::Object(
                        Seq::empty().push(
                            ("type"@, JsonValue::Text(self.rollback_protection.type_@)),
                        ).push(
                            (
                                "counter_name"@,
                                JsonValue::Text(self.rollback_protection.counter_name@),
                            ),
                        ),
                    ),
                ),
            ),
        )
    }
}

impl BootPolicy {
    fn to_value(&self) -> (r: Json)
        ensures
            r@ == self@.json(),
    {
        let mut o = JsonObject::new();
        o.put_text("policy_id", self.policy_id.as_str());
        o.put_bool("secure_boot_required", self.secure_boot_required);
        o.put_bool("measured_boot_required", self.measured_boot_required);
        o.put("pcr_profile", json::text_list_value(&self.pcr_profile));
        o.put_num("minimum_boot_manifest_version", self.minimum_boot_manifest_version);
        let mut r = JsonObject::new();
        r.put_text("type", self.rollback_protection.type_.as_str());
        r.put_text("counter_name", self.rollback_protection.counter_name.as_str());
        o.put("rollback_protection", r.finish());
        o.finish()
    }
}

/// The key-hierarchy section as a document.
pub open spec fn hierarchy_json(
    volume_master_key_version: u64,
    active_dek_version: u64,
    keyslots: Seq<KeyslotView>,
) -> JsonValue {
    JsonValue::Object(
        Seq::empty().push(
            ("volume_master_key_version"@, JsonValue::Num(volume_master_key_version as nat)),
        ).push(("active_dek_version"@, JsonValue::Num(active_dek_version as nat))).push(
            (
                "keyslots"@,
                JsonValue::List(keyslots.map_values(|k: KeyslotView| k.json())),
            ),
        ),
    )
}

impl ManifestKeyHierarchy {
    fn to_value(&self) -> (r: Json)
        ensures
            r@ == hierarchy_json(
                self.volume_master_key_version,
                self.active_dek_version,
                keyslot::keyslots_view(self.keyslots@),
            ),
    {
        let mut items: Vec<Json> = Vec::new();
        let mut i: usize = 0;
        while i < self.keyslots.len()
            invariant
                i <= self.keyslots@.len(),
                items@.len() == i,
                forall|k: int| 0 <= k < i ==> (#[trigger] items@[k])@ == self.keyslots@[k]@.json(),
            decreases self.keyslots@.len() - i,
        {
            items.push(self.keyslots[i].to_value());
            i = i + 1;
        }
        assert(items@.map_values(|j: Json| j@) =~= keyslot::keyslots_view(
            self.keyslots@,
        ).map_values(|k: KeyslotView| k.json()));
        let mut o = JsonObject::new();
        o.put_num("volume_master_key_version", self.volume_master_key_version);
        o.put_num("active_dek_version", self.active_dek_version);
        o.put("keyslots", json::list_value(items));
        o.finish()
    }
}

/// The audit section as a document.
pub open spec fn audit_json(a: Audit) -> JsonValue {
    JsonValue::Object(
        Seq::empty().push(("last_rotation"@, JsonValue::Text(a.last_rotation@))).push(
            (
                "last_attested_unlock_receipt"@,
                JsonValue::Text(a.last_attested_unlock_receipt@),
            ),
        ).push(("log_chain"@, JsonValue::Text(a.log_chain@))),
    )
}

impl Audit {
    fn to_value(&self) -> (r: Json)
        ensures
            r@ == audit_json(*self),
    {
        let mut o = JsonObject::new();
        o.put_text("last_rotation", self.last_rotation.as_str());
        o.put_text("last_attested_unlock_receipt", self.last_attested_unlock_receipt.as_str());
        o.put_text("log_chain", self.log_chain.as_str());
        o.finish()
    }
}

/// A signature descriptor as a document; absent members are left out.
pub open spec fn signature_json(s: ManifestSignature) -> JsonValue {
    let m = Seq::empty().push(("purpose"@, JsonValue::Text(s.purpose@))).push(
        ("algorithm"@, JsonValue::Text(s.algorithm@)),
    ).push(("key_id"@, JsonValue::Text(s.key_id@))).push(
        ("signature_ref"@, JsonValue::Text(s.signature_ref@)),
    );
    let m = match s.status {
        Some(t) => m.push(("status"@, JsonValue::Text(t@))),
        None => m,
    };
    JsonValue::Object(
        match s.not_after {
            Some(t) => m.push(("not_after"@, JsonValue::Text(t@))),
            None => m,
        },
    )
}

impl ManifestSignature {
    fn to_value(&self) -> (r: Json)
        ensures
            r@ == signature_json(*self),
    {
        let mut o = JsonObject::new();
        o.put_text("purpose", self.purpose.as_str());
        o.put_text("algorithm", self.algorithm.as_str());
        o.put_text("key_id", self.key_id.as_str());
        o.put_text("signature_ref", self.signature_ref.as_str());
        if let Some(t) = &self.status {
            o.put_text("status", t.as_str());
        }
        if let Some(t) = &self.not_after {
            o.put_text("not_after", t.as_str());
        }
        o.finish()
    }
}

impl ManifestView {
    /// The signed body: everything but the signatures.
    pub open spec fn body(self) -> JsonValue {
        JsonValue::Object(
            Seq::empty().push(("format"@, JsonValue::Text(self.format@))).push(
                ("volume_id"@, JsonValue::Text(self.volume_id@)),
            ).push(("created_at"@, JsonValue::Text(self.created_at@))).push(
                ("data_plane"@, self.data_plane.json()),
            ).push(("boot_policy"@, self.boot_policy.json())).push(
                (
                    "key_hierarchy"@,
                    hierarchy_json(
                        self.volume_master_key_version,
                        self.active_dek_version,
                        self.keyslots,
                    ),
                ),
            ).push(("audit"@, audit_json(self.audit))),
        )
    }

    /// What signatures are taken over: the compact form of the body.
    pub open spec fn signed_bytes(self) -> Seq<u8> {
        chain::document_bytes(self.body())
    }

    /// The whole manifest as a document.
    pub open spec fn json(self) -> JsonValue {
        JsonValue::Object(
            Seq::empty().push(("format"@, JsonValue::Text(self.format@))).push(
                ("volume_id"@, JsonValue::Text(self.volume_id@)),
            ).push(("created_at"@, JsonValue::Text(self.created_at@))).push(
                ("data_plane"@, self.data_plane.json()),
            ).push(("boot_policy"@, self.boot_policy.json())).push(
                (
                    "key_hierarchy"@,
                    hierarchy_json(
                        self.volume_master_key_version,
                        self.active_dek_version,
                        self.keyslots,
                    ),
                ),
            ).push(
                (
                    "signatures"@,
                    JsonValue::List(
                        self.signatures.map_values(|s: ManifestSignature| signature_json(s)),
                    ),
                ),
            ).push(("audit"@, audit_json(self.audit))),
        )
    }
}

/// Errors from reading and verifying a manifest.
#[derive(Debug, PartialEq, Eq)]
pub enum ManifestError {
    /// The manifest could not be read.
    Json(String),
    /// The manifest is of another format.
    BadFormat { expected: String, found: String },
    /// No signature over the body is valid.
    NoValidSignature,
    /// Only classical signatures are valid.
    InsufficientPostQuantum,
    /// A signature is not hexadecimal.
    BadSignatureEncoding { key_id: String, detail: String },
}

impl Clone for ManifestError {
    fn clone(&self) -> (r: Self)
        ensures
            r == *self,
    {
        match self {
            ManifestError::Json(s) => ManifestError::Json(s.clone()),
            ManifestError::BadFormat { expected, found } => ManifestError::BadFormat {
                expected: expected.clone(),
                found: found.clone(),
            },
            ManifestError::NoValidSignature => ManifestError::NoValidSignature,
            ManifestError::InsufficientPostQuantum => ManifestError::InsufficientPostQuantum,
            ManifestError::BadSignatureEncoding { key_id, detail } =>
                ManifestError::BadSignatureEncoding {
                    key_id: key_id.clone(),
                    detail: detail.clone(),
                },
        }
    }
}

impl ManifestError {
    /// The text of the error.
    pub open spec fn text(self) -> Seq<char> {
        match self {
            ManifestError::Json(d) => "json error: "@ + d@,
            ManifestError::BadFormat { expected, found } => "wrong manifest format: expected "@
                + expected@ + ", found "@ + found@,
            ManifestError::NoValidSignature => "no valid signature over the manifest body"@,
            ManifestError::InsufficientPostQuantum =>
                "manifest is only classically signed (transition): a post-quantum (ml-dsa/slh-dsa) signature is required"@,
            ManifestError::BadSignatureEncoding { key_id, detail } => "signature "@ + key_id@
                + " has a malformed signature_ref: "@ + detail@,
        }
    }

    /// The error as one line of text.
    pub fn message(&self) -> (r: String)
        ensures
            r@ == self.text(),
    {
        match self {
            ManifestError::Json(d) => {
                let mut out = "json error: ".to_string();
                out.append(d.as_str());
                out
            },
            ManifestError::BadFormat { expected, found } => {
                let mut out = "wrong manifest format: expected ".to_string();
                out.append(expected.as_str());
                out.append(", found ");
                out.append(found.as_str());
                out
            },
            ManifestError::NoValidSignature => {
                "no valid signature over the manifest body".to_string()
            },
            ManifestError::InsufficientPostQuantum => {
                "manifest is only classically signed (transition): a post-quantum (ml-dsa/slh-dsa) signature is required".to_string()
            },
            ManifestError::BadSignatureEncoding { key_id, detail } => {
                let mut out = "signature ".to_string();
                out.append(key_id.as_str());
                out.append(" has a malformed signature_ref: ");
                out.append(detail.as_str());
                out
            },
        }
    }
}

/// Whether `alg` names a post-quantum signature algorithm.
pub open spec fn pq_algorithm(alg: Seq<char>) -> bool {
    text::has_prefix(text::lower(alg), "ml-dsa"@) || text::has_prefix(
        text::lower(alg),
        "slh-dsa"@,
    )
}

/// Whether `alg` is a post-quantum signature algorithm.
pub fn is_pq_signature_alg(alg: &str) -> (r: bool)
    ensures
        r == pq_algorithm(alg@),
{
    let a = text::lower_text(alg);
    text::starts_with(a.as_str(), "ml-dsa") || text::starts_with(a.as_str(), "slh-dsa")
}

// ----------------------------------------------------------- verification

/// Verifier `j` takes the signature: key and algorithm are its own, and it
/// accepts the bytes over the body.
pub open spec fn taken_by<V: Verifier + ?Sized>(
    verifiers: Seq<&V>,
    j: int,
    s: ManifestSignature,
    body: Seq<u8>,
) -> bool {
    &&& verifiers[j].key() == s.key_id@
    &&& verifiers[j].alg() == s.algorithm@
    &&& verifiers[j].accepts(
        body,
        s.algorithm@,
        s.key_id@,
        primitives::hex_bytes(s.signature_ref@)->0,
    )
}

/// One of the verifiers takes the signature.
pub open spec fn valid_signature<V: Verifier + ?Sized>(
    s: ManifestSignature,
    body: Seq<u8>,
    verifiers: Seq<&V>,
) -> bool {
    exists|j: int| 0 <= j < verifiers.len() && #[trigger] taken_by(verifiers, j, s, body)
}

/// A signature whose bytes can be read.
pub open spec fn readable(s: ManifestSignature) -> bool {
    primitives::hex_bytes(s.signature_ref@) is Some
}

/// The purposes of the valid post-quantum signatures, in their order.
pub open spec fn pq_purposes<V: Verifier + ?Sized>(
    signatures: Seq<ManifestSignature>,
    body: Seq<u8>,
    verifiers: Seq<&V>,
) -> Seq<Seq<char>>
    decreases signatures.len(),
{
    if signatures.len() == 0 {
        Seq::empty()
    } else {
        let before = pq_purposes(signatures.drop_last(), body, verifiers);
        let s = signatures.last();
        if valid_signature(s, body, verifiers) && pq_algorithm(s.algorithm@) {
            before.push(s.purpose@)
        } else {
            before
        }
    }
}

/// A valid classical signature is there.
pub open spec fn has_classical<V: Verifier + ?Sized>(
    signatures: Seq<ManifestSignature>,
    body: Seq<u8>,
    verifiers: Seq<&V>,
) -> bool {
    exists|i: int|
        0 <= i < signatures.len() && valid_signature(#[trigger] signatures[i], body, verifiers)
            && !pq_algorithm(signatures[i].algorithm@)
}

/// What a verification finds.
pub enum ManifestVerdict {
    /// The format is another one.
    BadFormat,
    /// Signature `i` is the first whose bytes cannot be read.
    Unreadable(int),
    /// Post-quantum verified, with the purposes of the signatures that did it.
    Verified(Seq<Seq<char>>),
    /// Only classical signatures are valid.
    ClassicalOnly,
    /// No signature is valid.
    Unsigned,
}

/// The first signature whose bytes cannot be read.
pub open spec fn first_unreadable(signatures: Seq<ManifestSignature>, i: int) -> bool {
    &&& 0 <= i < signatures.len()
    &&& !readable(signatures[i])
    &&& forall|j: int| 0 <= j < i ==> readable(#[trigger] signatures[j])
}

impl ManifestView {
    /// What verification against `verifiers` finds.
    pub open spec fn verdict<V: Verifier + ?Sized>(self, verifiers: Seq<&V>) -> ManifestVerdict {
        let purposes = pq_purposes(self.signatures, self.signed_bytes(), verifiers);
        if self.format@ != QRSD_FORMAT@ {
            ManifestVerdict::BadFormat
        } else if exists|i: int| first_unreadable(self.signatures, i) {
            ManifestVerdict::Unreadable(choose|i: int| first_unreadable(self.signatures, i))
        } else if purposes.len() > 0 {
            ManifestVerdict::Verified(purposes)
        } else if has_classical(self.signatures, self.signed_bytes(), verifiers) {
            ManifestVerdict::ClassicalOnly
        } else {
            ManifestVerdict::Unsigned
        }
    }
}

impl ManifestView {
    /// Whether `e` says why `verdict` is no success.
    pub open spec fn explains(self, verdict: ManifestVerdict, e: ManifestError) -> bool {
        match verdict {
            ManifestVerdict::BadFormat => e matches ManifestError::BadFormat { expected, found }
                && expected@ == QRSD_FORMAT@ && found@ == self.format@,
            ManifestVerdict::Unreadable(i) => e matches ManifestError::BadSignatureEncoding {
                key_id,
                detail,
            } && key_id@ == self.signatures[i].key_id@ && primitives::tells_hex_error(
                self.signatures[i].signature_ref@,
                detail@,
            ),
            ManifestVerdict::Verified(_) => false,
            ManifestVerdict::ClassicalOnly => e == ManifestError::InsufficientPostQuantum,
            ManifestVerdict::Unsigned => e == ManifestError::NoValidSignature,
        }
    }
}

/// A manifest that has passed post-quantum-required verification.
///
/// It can only be made by [`QrsdManifest::verify`], so possessing one is proof
/// that the manifest carried a valid ML-DSA or SLH-DSA signature over its body.
#[derive(Debug)]
pub struct VerifiedManifest {
    manifest: QrsdManifest,
    verified_purposes: Vec<String>,
}

impl Clone for VerifiedManifest {
    fn clone(&self) -> (r: Self)
        ensures
            r.content() == self.content(),
            r.purposes() == self.purposes(),
    {
        proof {
            use_type_invariant(&*self);
        }
        let verified_purposes = self.verified_purposes.clone();
        assert(text::views(verified_purposes@) =~= text::views(self.verified_purposes@));
        VerifiedManifest { manifest: self.manifest.clone(), verified_purposes }
    }
}

impl VerifiedManifest {
    /// The content of the verified manifest.
    pub closed spec fn content(&self) -> ManifestView {
        self.manifest@
    }

    /// The purposes of the signatures that verified.
    pub closed spec fn purposes(&self) -> Seq<Seq<char>> {
        text::views(self.verified_purposes@)
    }

    /// At least one post-quantum signature verified.
    #[verifier::type_invariant]
    spec fn signed(&self) -> bool {
        self.verified_purposes@.len() > 0
    }

    /// The underlying verified manifest.
    pub fn manifest(&self) -> (r: &QrsdManifest)
        ensures
            r@ == self.content(),
    {
        &self.manifest
    }

    /// Minimum acceptable boot-manifest version declared by the boot policy.
    pub fn min_boot_manifest_version(&self) -> (r: u64)
        ensures
            r == self.content().boot_policy.minimum_boot_manifest_version,
    {
        self.manifest.boot_policy.minimum_boot_manifest_version
    }

    /// The keyslots in the verified manifest.
    pub fn keyslots(&self) -> (r: &[Keyslot])
        ensures
            keyslot::keyslots_view(r@) == self.content().keyslots,
    {
        self.manifest.key_hierarchy.keyslots.as_slice()
    }

    /// Purposes of the signatures that verified: at least one.
    pub fn verified_purposes(&self) -> (r: &[String])
        ensures
            text::views(r@) == self.purposes(),
            r@.len() > 0,
    {
        proof {
            use_type_invariant(&*self);
        }
        self.verified_purposes.as_slice()
    }
}

impl QrsdManifest {
    /// The signed body as a document.
    fn body_value(&self) -> (r: Json)
        ensures
            r@ == self@.body(),
    {
        let mut o = JsonObject::new();
        o.put_text("format", self.format.as_str());
        o.put_text("volume_id", self.volume_id.as_str());
        o.put_text("created_at", self.created_at.as_str());
        o.put("data_plane", self.data_plane.to_value());
        o.put("boot_policy", self.boot_policy.to_value());
        o.put("key_hierarchy", self.key_hierarchy.to_value());
        o.put("audit", self.audit.to_value());
        o.finish()
    }

    /// Canonical signed body: the whole manifest except the signatures.
    pub fn signing_bytes(&self) -> (r: Vec<u8>)
        ensures
            r@ == self@.signed_bytes(),
    {
        text::bytes_of(self.body_value().to_compact().as_str())
    }

    /// Sign the body with `signer` and append a [`ManifestSignature`].
    pub fn sign<S: Signer + ?Sized>(&mut self, signer: &S, purpose: &str)
        ensures
            exists|sig: Signature, ms: ManifestSignature| #[trigger]
                signer.signs(old(self)@.signed_bytes(), sig) && #[trigger] describes(
                    ms,
                    sig,
                    purpose@,
                ) && final(self)@ == (ManifestView {
                    signatures: old(self)@.signatures.push(ms),
                    ..old(self)@
                }),
            final(self)@.signed_bytes() == old(self)@.signed_bytes(),
    {
        let body = self.signing_bytes();
        let sig = signer.sign(body.as_slice());
        let ms = ManifestSignature {
            purpose: purpose.to_string(),
            algorithm: sig.algorithm.clone(),
            key_id: sig.key_id.clone(),
            signature_ref: primitives::hex_encode(sig.bytes.as_slice()),
            status: None,
            not_after: None,
        };
        let ghost made = ms;
        self.signatures.push(ms);
        assert(describes(made, sig, purpose@));
        assert(self@ == (ManifestView {
            signatures: old(self)@.signatures.push(made),
            ..old(self)@
        }));
    }

    /// Verify the manifest, requiring at least one valid post-quantum
    /// signature over [`QrsdManifest::signing_bytes`]. Fails closed:
    ///
    /// * yields [`VerifiedManifest`] if a valid ML-DSA or SLH-DSA signature
    ///   exists;
    /// * [`ManifestError::InsufficientPostQuantum`] if only a classical
    ///   signature is valid;
    /// * [`ManifestError::NoValidSignature`] if none is.
    pub fn verify<V: Verifier + ?Sized>(&self, verifiers: &[&V]) -> (r: Result<
        VerifiedManifest,
        ManifestError,
    >)
        ensures
            match self@.verdict(verifiers@) {
                ManifestVerdict::Verified(purposes) => r matches Ok(v) && v.content() == self@
                    && v.purposes() == purposes,
                verdict => r matches Err(e) && self@.explains(verdict, e),
            },
    {
        if !text::same(self.format.as_str(), QRSD_FORMAT) {
            return Err(
                ManifestError::BadFormat {
                    expected: QRSD_FORMAT.to_string(),
                    found: self.format.clone(),
                },
            );
        }
        let body = self.signing_bytes();
        let mut pq: Vec<String> = Vec::new();
        let mut classical_valid = false;
        let ghost sigs = self.signatures@;
        let mut i: usize = 0;
        assert(text::views(pq@) =~= pq_purposes(sigs.take(0), body@, verifiers@));
        while i < self.signatures.len()
            invariant
                i <= self.signatures@.len(),
                sigs == self.signatures@,
                body@ == self@.signed_bytes(),
                self.format@ == QRSD_FORMAT@,
                forall|j: int| 0 <= j < i ==> readable(#[trigger] sigs[j]),
                text::views(pq@) == pq_purposes(sigs.take(i as int), body@, verifiers@),
                classical_valid == has_classical(sigs.take(i as int), body@, verifiers@),
            decreases self.signatures@.len() - i,
        {
            let ms = &self.signatures[i];
            let bytes = match primitives::hex_decode(ms.signature_ref.as_str()) {
                Ok(b) => b,
                Err(e) => {
                    proof {
                        assert(first_unreadable(sigs, i as int));
                        let c = choose|k: int| first_unreadable(sigs, k);
                        assert(c == i);
                    }
                    return Err(
                        ManifestError::BadSignatureEncoding {
                            key_id: ms.key_id.clone(),
                            detail: e,
                        },
                    );
                },
            };
            let sig = Signature {
                algorithm: ms.algorithm.clone(),
                key_id: ms.key_id.clone(),
                bytes,
            };
            let mut verified = false;
            let mut j: usize = 0;
            while j < verifiers.len()
                invariant
                    j <= verifiers@.len(),
                    sig.algorithm@ == ms.algorithm@,
                    sig.key_id@ == ms.key_id@,
                    primitives::hex_bytes(ms.signature_ref@) == Some(sig.bytes@),
                    verified == exists|k: int|
                        0 <= k < j && #[trigger] taken_by(verifiers@, k, *ms, body@),
                decreases verifiers@.len() - j,
            {
                let v = verifiers[j];
                let ghost before = verified;
                let takes = text::same(v.key_id(), ms.key_id.as_str()) && text::same(
                    v.algorithm(),
                    ms.algorithm.as_str(),
                ) && v.verify(body.as_slice(), &sig);
                assert(takes == taken_by(verifiers@, j as int, *ms, body@));
                if takes {
                    verified = true;
                }
                j = j + 1;
                proof {
                    if before {
                        let k = choose|k: int|
                            0 <= k < j - 1 && #[trigger] taken_by(verifiers@, k, *ms, body@);
                        assert(0 <= k < j && taken_by(verifiers@, k, *ms, body@));
                    }
                }
            }
            assert(verified == valid_signature(*ms, body@, verifiers@));
            let ghost next = sigs.take(i as int + 1);
            assert(next.drop_last() =~= sigs.take(i as int));
            assert(next.last() == *ms);
            let ghost was = classical_valid;
            if verified {
                if is_pq_signature_alg(ms.algorithm.as_str()) {
                    pq.push(ms.purpose.clone());
                } else {
                    classical_valid = true;
                    assert(next[i as int] == *ms);
                }
            }
            assert(text::views(pq@) =~= pq_purposes(next, body@, verifiers@));
            assert(classical_valid == has_classical(next, body@, verifiers@)) by {
                if was {
                    let k = choose|k: int|
                        0 <= k < i && valid_signature(
                            #[trigger] sigs.take(i as int)[k],
                            body@,
                            verifiers@,
                        ) && !pq_algorithm(sigs.take(i as int)[k].algorithm@);
                    assert(next[k] == sigs.take(i as int)[k]);
                }
                if has_classical(next, body@, verifiers@) {
                    let k = choose|k: int|
                        0 <= k < next.len() && valid_signature(
                            #[trigger] next[k],
                            body@,
                            verifiers@,
                        ) && !pq_algorithm(next[k].algorithm@);
                    if k < i {
                        assert(sigs.take(i as int)[k] == next[k]);
                    }
                }
            }
            i = i + 1;
        }
        assert(sigs.take(i as int) =~= sigs);
        assert(text::views(pq@).len() == pq@.len());
        if pq.len() > 0 {
            Ok(VerifiedManifest { manifest: self.clone(), verified_purposes: pq })
        } else if classical_valid {
            Err(ManifestError::InsufficientPostQuantum)
        } else {
            Err(ManifestError::NoValidSignature)
        }
    }

    /// Serialize to indented JSON. This never fails.
    pub fn to_json(&self) -> (r: Result<String, ManifestError>)
        ensures
            r matches Ok(s) && s@ == json::pretty(self@.json(), Seq::empty()),
    {
        let mut items: Vec<Json> = Vec::new();
        let mut i: usize = 0;
        while i < self.signatures.len()
            invariant
                i <= self.signatures@.len(),
                items@.len() == i,
                forall|k: int|
                    0 <= k < i ==> (#[trigger] items@[k])@ == signature_json(self.signatures@[k]),
            decreases self.signatures@.len() - i,
        {
            items.push(self.signatures[i].to_value());
            i = i + 1;
        }
        assert(items@.map_values(|j: Json| j@) =~= self.signatures@.map_values(
            |s: ManifestSignature| signature_json(s),
        ));
        let mut o = JsonObject::new();
        o.put_text("format", self.format.as_str());
        o.put_text("volume_id", self.volume_id.as_str());
        o.put_text("created_at", self.created_at.as_str());
        o.put("data_plane", self.data_plane.to_value());
        o.put("boot_policy", self.boot_policy.to_value());
        o.put("key_hierarchy", self.key_hierarchy.to_value());
        o.put("signatures", json::list_value(items));
        o.put("audit", self.audit.to_value());
        Ok(o.finish().to_pretty())
    }
}

/// A descriptor that carries the signature for a purpose.
pub open spec fn describes(ms: ManifestSignature, sig: Signature, purpose: Seq<char>) -> bool {
    &&& ms.purpose@ == purpose
    &&& ms.algorithm@ == sig.algorithm@
    &&& ms.key_id@ == sig.key_id@
    &&& ms.signature_ref@ == primitives::hex_text(sig.bytes@)
    &&& ms.status is None
    &&& ms.not_after is None
}

// ------------------------------------------------------------------- laws

/// A valid post-quantum signature has its purpose listed.
pub proof fn pq_purpose_of_index<V: Verifier + ?Sized>(
    signatures: Seq<ManifestSignature>,
    body: Seq<u8>,
    verifiers: Seq<&V>,
    i: int,
)
    requires
        0 <= i < signatures.len(),
        valid_signature(signatures[i], body, verifiers),
        pq_algorithm(signatures[i].algorithm@),
    ensures
        pq_purposes(signatures, body, verifiers).len() > 0,
    decreases signatures.len(),
{
    if i < signatures.len() - 1 {
        assert(signatures.drop_last()[i] == signatures[i]);
        pq_purpose_of_index(signatures.drop_last(), body, verifiers, i);
    }
}

proof fn index_of_pq_purpose<V: Verifier + ?Sized>(
    signatures: Seq<ManifestSignature>,
    body: Seq<u8>,
    verifiers: Seq<&V>,
) -> (i: int)
    requires
        pq_purposes(signatures, body, verifiers).len() > 0,
    ensures
        0 <= i < signatures.len(),
        valid_signature(signatures[i], body, verifiers),
        pq_algorithm(signatures[i].algorithm@),
    decreases signatures.len(),
{
    let s = signatures.last();
    if valid_signature(s, body, verifiers) && pq_algorithm(s.algorithm@) {
        signatures.len() - 1
    } else {
        let i = index_of_pq_purpose(signatures.drop_last(), body, verifiers);
        assert(signatures.drop_last()[i] == signatures[i]);
        i
    }
}

/// A manifest is verified only where it carries a valid post-quantum
/// signature over its body; classical signatures never suffice.
pub proof fn verified_only_with_pq_signature<V: Verifier + ?Sized>(m: ManifestView, verifiers: Seq<&V>)
    requires
        m.verdict(verifiers) is Verified,
    ensures
        m.format@ == QRSD_FORMAT@,
        exists|i: int|
            0 <= i < m.signatures.len() && valid_signature(
                #[trigger] m.signatures[i],
                m.signed_bytes(),
                verifiers,
            ) && pq_algorithm(m.signatures[i].algorithm@),
{
    let i = index_of_pq_purpose(m.signatures, m.signed_bytes(), verifiers);
    assert(valid_signature(m.signatures[i], m.signed_bytes(), verifiers));
}

/// A manifest that was signed with a post-quantum key verifies against that
/// key, whatever other readable signatures it carries: a signature that a
/// verifier accepts over the body, put on the manifest, makes it verified.
pub proof fn signed_manifest_verifies<V: Verifier + ?Sized>(
    m: ManifestView,
    verifiers: Seq<&V>,
    i: int,
    j: int,
    sig: Signature,
    purpose: Seq<char>,
)
    requires
        m.format@ == QRSD_FORMAT@,
        0 <= i < m.signatures.len(),
        0 <= j < verifiers.len(),
        describes(m.signatures[i], sig, purpose),
        pq_algorithm(sig.algorithm@),
        verifiers[j].key() == sig.key_id@,
        verifiers[j].alg() == sig.algorithm@,
        verifiers[j].accepts(m.signed_bytes(), sig.algorithm@, sig.key_id@, sig.bytes@),
        forall|k: int| 0 <= k < m.signatures.len() && k != i ==> readable(
            #[trigger] m.signatures[k],
        ),
    ensures
        m.verdict(verifiers) is Verified,
{
    primitives::hex_round_trip(sig.bytes@);
    assert(taken_by(verifiers, j, m.signatures[i], m.signed_bytes()));
    assert(readable(m.signatures[i]));
    pq_purpose_of_index(m.signatures, m.signed_bytes(), verifiers, i);
}

/// A verified manifest stays verified when it is signed again: one more
/// signature, by whatever signer and for whatever purpose, takes none of those
/// that count away.
pub proof fn signed_again_stays_verified<V: Verifier + ?Sized>(
    m: ManifestView,
    verifiers: Seq<&V>,
    ms: ManifestSignature,
    sig: Signature,
    purpose: Seq<char>,
)
    requires
        m.verdict(verifiers) is Verified,
        describes(ms, sig, purpose),
    ensures
        (ManifestView { signatures: m.signatures.push(ms), ..m }).verdict(verifiers) is Verified,
{
    let after = ManifestView { signatures: m.signatures.push(ms), ..m };
    let body = m.signed_bytes();
    primitives::hex_round_trip(sig.bytes@);
    assert(readable(ms));
    assert forall|i: int| 0 <= i < after.signatures.len() implies readable(
        #[trigger] after.signatures[i],
    ) by {
        if i < m.signatures.len() {
            assert(after.signatures[i] == m.signatures[i]);
            all_readable(m.signatures, i);
        }
    }
    assert(after.signatures.drop_last() =~= m.signatures);
    assert(pq_purposes(after.signatures, body, verifiers).len() >= pq_purposes(
        m.signatures,
        body,
        verifiers,
    ).len());
}

/// Where no signature is the first unreadable one, all are readable.
pub proof fn all_readable(signatures: Seq<ManifestSignature>, i: int)
    requires
        0 <= i < signatures.len(),
        forall|k: int| !first_unreadable(signatures, k),
    ensures
        readable(signatures[i]),
    decreases i,
{
    assert forall|j: int| 0 <= j < i implies readable(#[trigger] signatures[j]) by {
        all_readable(signatures, j);
    }
    assert(!first_unreadable(signatures, i));
}

/// The signed bytes do not depend on the signatures.
pub proof fn signatures_are_outside_the_body(m: ManifestView, signatures: Seq<ManifestSignature>)
    ensures
        (ManifestView { signatures, ..m }).signed_bytes() == m.signed_bytes(),
{
}

/// The signed bytes pin every section of the manifest: no two manifests that
/// differ in one of them share a body.
pub proof fn signed_bytes_pin_sections(a: ManifestView, b: ManifestView)
    requires
        a.signed_bytes() == b.signed_bytes(),
    ensures
        a.format@ == b.format@,
        a.volume_id@ == b.volume_id@,
        a.created_at@ == b.created_at@,
        a.data_plane.json() == b.data_plane.json(),
        a.boot_policy.json() == b.boot_policy.json(),
        a.boot_policy.minimum_boot_manifest_version == b.boot_policy.minimum_boot_manifest_version,
        hierarchy_json(a.volume_master_key_version, a.active_dek_version, a.keyslots)
            == hierarchy_json(b.volume_master_key_version, b.active_dek_version, b.keyslots),
        audit_json(a.audit) == audit_json(b.audit),
{
    chain::document_bytes_pin_document(a.body(), b.body());
    let (p, q) = (a.body()->Object_0, b.body()->Object_0);
    assert(p[0] == q[0] && p[1] == q[1] && p[2] == q[2] && p[3] == q[3]);
    assert(p[4] == q[4] && p[5] == q[5] && p[6] == q[6]);
    let (u, v) = (a.boot_policy.json()->Object_0, b.boot_policy.json()->Object_0);
    assert(u[4] == v[4]);
}

/// The signed bytes pin each keyslot's document, in order.
pub proof fn hierarchy_pins_slots(a: ManifestView, b: ManifestView)
    requires
        a.signed_bytes() == b.signed_bytes(),
    ensures
        a.volume_master_key_version == b.volume_master_key_version,
        a.active_dek_version == b.active_dek_version,
        a.keyslots.len() == b.keyslots.len(),
        forall|i: int|
            0 <= i < a.keyslots.len() ==> (#[trigger] a.keyslots[i]).json()
                == b.keyslots[i].json(),
{
    signed_bytes_pin_sections(a, b);
    let p = hierarchy_json(a.volume_master_key_version, a.active_dek_version, a.keyslots);
    let q = hierarchy_json(b.volume_master_key_version, b.active_dek_version, b.keyslots);
    assert(p->Object_0[0] == q->Object_0[0]);
    assert(p->Object_0[1] == q->Object_0[1]);
    assert(p->Object_0[2] == q->Object_0[2]);
    let (s, t) = (p->Object_0[2].1->List_0, q->Object_0[2].1->List_0);
    assert(s == t);
    assert(s.len() == a.keyslots.len() && t.len() == b.keyslots.len());
    assert forall|i: int| 0 <= i < a.keyslots.len() implies (#[trigger] a.keyslots[i]).json()
        == b.keyslots[i].json() by {
        assert(s[i] == t[i]);
        assert(s[i] == a.keyslots[i].json() && t[i] == b.keyslots[i].json());
    }
}

/// Two signature entries that verification cannot tell apart.
pub open spec fn same_signature(a: ManifestSignature, b: ManifestSignature) -> bool {
    &&& a.purpose@ == b.purpose@
    &&& a.algorithm@ == b.algorithm@
    &&& a.key_id@ == b.key_id@
    &&& a.signature_ref@ == b.signature_ref@
}

proof fn same_signature_same_validity<V: Verifier + ?Sized>(
    a: ManifestSignature,
    b: ManifestSignature,
    body: Seq<u8>,
    verifiers: Seq<&V>,
)
    requires
        same_signature(a, b),
    ensures
        valid_signature(a, body, verifiers) == valid_signature(b, body, verifiers),
{
    if valid_signature(a, body, verifiers) {
        let j = choose|j: int| 0 <= j < verifiers.len() && taken_by(verifiers, j, a, body);
        assert(taken_by(verifiers, j, b, body));
    }
    if valid_signature(b, body, verifiers) {
        let j = choose|j: int| 0 <= j < verifiers.len() && taken_by(verifiers, j, b, body);
        assert(taken_by(verifiers, j, a, body));
    }
}

proof fn same_purposes<V: Verifier + ?Sized>(
    s: Seq<ManifestSignature>,
    t: Seq<ManifestSignature>,
    body: Seq<u8>,
    verifiers: Seq<&V>,
)
    requires
        s.len() == t.len(),
        forall|i: int| 0 <= i < s.len() ==> same_signature(#[trigger] s[i], t[i]),
    ensures
        pq_purposes(s, body, verifiers) == pq_purposes(t, body, verifiers),
    decreases s.len(),
{
    if s.len() > 0 {
        let n = s.len() - 1;
        assert(same_signature(s[n], t[n]));
        same_signature_same_validity(s[n], t[n], body, verifiers);
        assert forall|i: int| 0 <= i < n implies same_signature(
            #[trigger] s.drop_last()[i],
            t.drop_last()[i],
        ) by {
            assert(same_signature(s[i], t[i]));
        }
        same_purposes(s.drop_last(), t.drop_last(), body, verifiers);
    }
}

/// Storing a manifest loses nothing that verification looks at: manifests with
/// the same stored form have the same signed bytes, and whatever verifiers look
/// at them find the same.
pub proof fn stored_form_keeps_finding<V: Verifier + ?Sized>(
    a: ManifestView,
    b: ManifestView,
    verifiers: Seq<&V>,
)
    requires
        json::pretty(a.json(), Seq::empty()) == json::pretty(b.json(), Seq::empty()),
    ensures
        a.signed_bytes() == b.signed_bytes(),
        a.signatures.len() == b.signatures.len(),
        forall|i: int|
            0 <= i < a.signatures.len() ==> same_signature(
                #[trigger] a.signatures[i],
                b.signatures[i],
            ),
        a.verdict(verifiers) == b.verdict(verifiers),
{
    json::indented::pretty_is_injective(a.json(), b.json());
    let (p, q) = (a.json()->Object_0, b.json()->Object_0);
    assert(p[0] == q[0] && p[1] == q[1] && p[2] == q[2] && p[3] == q[3]);
    assert(p[4] == q[4] && p[5] == q[5] && p[6] == q[6] && p[7] == q[7]);
    assert(a.body() == b.body());
    let (u, v) = (p[6].1->List_0, q[6].1->List_0);
    assert(u == v);
    let (s, t) = (a.signatures, b.signatures);
    assert(u.len() == s.len() && v.len() == t.len());
    assert forall|i: int| 0 <= i < s.len() implies same_signature(#[trigger] s[i], t[i]) by {
        assert(u[i] == signature_json(s[i]) && v[i] == signature_json(t[i]));
        let (x, y) = (signature_json(s[i])->Object_0, signature_json(t[i])->Object_0);
        assert(x[0] == y[0] && x[1] == y[1] && x[2] == y[2] && x[3] == y[3]);
    }
    let body = a.signed_bytes();
    same_purposes(s, t, body, verifiers);
    assert forall|i: int| first_unreadable(s, i) <==> first_unreadable(t, i) by {
        if first_unreadable(s, i) {
            assert(same_signature(s[i], t[i]));
            assert forall|j: int| 0 <= j < i implies readable(#[trigger] t[j]) by {
                assert(readable(s[j]) && same_signature(s[j], t[j]));
            }
        }
        if first_unreadable(t, i) {
            assert(same_signature(s[i], t[i]));
            assert forall|j: int| 0 <= j < i implies readable(#[trigger] s[j]) by {
                assert(readable(t[j]) && same_signature(s[j], t[j]));
            }
        }
    }
    if exists|i: int| first_unreadable(s, i) {
        let i = choose|i: int| first_unreadable(s, i);
        let j = choose|j: int| first_unreadable(t, j);
        assert(first_unreadable(t, i) && first_unreadable(t, j));
        assert(i == j) by {
            if i < j {
                assert(readable(t[i]));
            } else if j < i {
                assert(readable(t[j]));
            }
        }
    }
    if has_classical(s, body, verifiers) {
        let i = choose|i: int|
            0 <= i < s.len() && valid_signature(#[trigger] s[i], body, verifiers) && !pq_algorithm(
                s[i].algorithm@,
            );
        assert(same_signature(s[i], t[i]));
        same_signature_same_validity(s[i], t[i], body, verifiers);
    }
    if has_classical(t, body, verifiers) {
        let i = choose|i: int|
            0 <= i < t.len() && valid_signature(#[trigger] t[i], body, verifiers) && !pq_algorithm(
                t[i].algorithm@,
            );
        assert(same_signature(s[i], t[i]));
        same_signature_same_validity(s[i], t[i], body, verifiers);
    }
}

} // verus!
