//! A flat summary of the storage key hierarchy.
//!
//! The keyslots of a manifest remain the source of truth; this is a view of
//! them in plain names.
use vstd::prelude::*;

use crate::json;
use crate::json::{Json, JsonObject, JsonValue};
use crate::qrse::hierarchy;
use crate::qrse::hierarchy::{KeyClass, KeyHierarchy};
use crate::qrse::keyslot::{Keyslot as QrseKeyslot, KeyslotKind, KeyslotStatus};
use crate::qrse::manifest::ManifestKeyHierarchy;

verus! {

/// Summary of a volume's key hierarchy.
#[derive(Debug, Clone, PartialEq, Eq)]
pub struct StorageKeyHierarchy {
    /// Volume.
    pub volume_id: String,
    /// Version of the data key.
    pub dek_version: u64,
    /// Version of the volume master key.
    pub vmk_version: u64,
    /// Keyslots.
    pub keyslots: Vec<Keyslot>,
}

/// Summary of a keyslot.
#[derive(Debug, Clone, PartialEq, Eq)]
pub struct Keyslot {
    /// Slot index.
    pub id: u32,
    /// Name of the mechanism.
    pub kind: String,
    /// Name of the state.
    pub status: String,
}

/// The name of a keyslot state.
pub fn keyslot_status_label(status: KeyslotStatus) -> (r: &'static str)
    ensures
        r@ == status.wire(),
{
    status.as_str()
}

/// The name of a keyslot mechanism.
pub open spec fn kind_label(kind: KeyslotKind) -> Seq<char> {
    match kind {
        KeyslotKind::Argon2idPassphrase { .. } => "argon2id_passphrase"@,
        KeyslotKind::Tpm2Sealed { .. } => "tpm2_sealed"@,
        KeyslotKind::HybridRemoteKms { .. } => "hybrid_remote_kms"@,
        KeyslotKind::ThresholdRecovery { .. } => "threshold_recovery"@,
    }
}

/// The name of a keyslot mechanism.
pub fn keyslot_kind_label(kind: &KeyslotKind) -> (r: &'static str)
    ensures
        r@ == kind_label(*kind),
{
    match kind {
        KeyslotKind::Argon2idPassphrase { .. } => "argon2id_passphrase",
        KeyslotKind::Tpm2Sealed { .. } => "tpm2_sealed",
        KeyslotKind::HybridRemoteKms { .. } => "hybrid_remote_kms",
        KeyslotKind::ThresholdRecovery { .. } => "threshold_recovery",
    }
}

impl Keyslot {
    /// This is the summary of `k`.
    pub open spec fn summarizes(self, k: QrseKeyslot) -> bool {
        &&& self.id == k.slot
        &&& self.kind@ == kind_label(k.kind)
        &&& self.status@ == k.status.wire()
    }

    /// The keyslot as a JSON object.
    pub open spec fn wire(self) -> JsonValue {
        JsonValue::Object(
            Seq::empty().push(("id"@, JsonValue::Num(self.id as nat))).push(
                ("kind"@, JsonValue::Text(self.kind@)),
            ).push(("status"@, JsonValue::Text(self.status@))),
        )
    }

    /// The keyslot as a JSON object.
    fn to_wire(&self) -> (r: Json)
        ensures
            r@ == self.wire(),
    {
        let mut o = JsonObject::new();
        o.put_num("id", self.id as u64);
        o.put_text("kind", self.kind.as_str());
        o.put_text("status", self.status.as_str());
        o.finish()
    }
}

impl From<&QrseKeyslot> for Keyslot {
    fn from(k: &QrseKeyslot) -> (r: Keyslot)
        ensures
            r.summarizes(*k),
    {
        Keyslot {
            id: k.slot,
            kind: keyslot_kind_label(&k.kind).to_string(),
            status: keyslot_status_label(k.status).to_string(),
        }
    }
}

impl vstd::std_specs::convert::FromSpecImpl<&QrseKeyslot> for Keyslot {
    open spec fn obeys_from_spec() -> bool {
        false
    }

    open spec fn from_spec(k: &QrseKeyslot) -> Keyslot {
        arbitrary()
    }
}

impl From<QrseKeyslot> for Keyslot {
    fn from(k: QrseKeyslot) -> (r: Keyslot)
        ensures
            r.summarizes(k),
    {
        Keyslot {
            id: k.slot,
            kind: keyslot_kind_label(&k.kind).to_string(),
            status: keyslot_status_label(k.status).to_string(),
        }
    }
}

impl vstd::std_specs::convert::FromSpecImpl<QrseKeyslot> for Keyslot {
    open spec fn obeys_from_spec() -> bool {
        false
    }

    open spec fn from_spec(k: QrseKeyslot) -> Keyslot {
        arbitrary()
    }
}

impl StorageKeyHierarchy {
    /// This is the summary of `mh`: the versions, and each keyslot in its place.
    pub open spec fn summarizes(self, mh: ManifestKeyHierarchy) -> bool {
        &&& self.dek_version == mh.active_dek_version
        &&& self.vmk_version == mh.volume_master_key_version
        &&& self.keyslots@.len() == mh.keyslots@.len()
        &&& forall|i: int|
            0 <= i < self.keyslots@.len() ==> (#[trigger] self.keyslots@[i]).summarizes(
                mh.keyslots@[i],
            )
    }

    /// The summary of a key hierarchy.
    pub fn from_manifest(volume_id: &str, mh: &ManifestKeyHierarchy) -> (r: Self)
        ensures
            r.volume_id@ == volume_id@,
            r.summarizes(*mh),
    {
        let mut keyslots: Vec<Keyslot> = Vec::new();
        let mut i: usize = 0;
        while i < mh.keyslots.len()
            invariant
                i <= mh.keyslots@.len(),
                keyslots@.len() == i,
                forall|k: int|
                    0 <= k < i ==> (#[trigger] keyslots@[k]).summarizes(mh.keyslots@[k]),
            decreases mh.keyslots@.len() - i,
        {
            keyslots.push(Keyslot::from(&mh.keyslots[i]));
            i = i + 1;
        }
        StorageKeyHierarchy {
            volume_id: volume_id.to_string(),
            dek_version: mh.active_dek_version,
            vmk_version: mh.volume_master_key_version,
            keyslots,
        }
    }

    /// The key hierarchy with this summary's versions and the given keyslots.
    pub open spec fn rebuilt(self, keyslots: Vec<QrseKeyslot>) -> ManifestKeyHierarchy {
        ManifestKeyHierarchy {
            volume_master_key_version: self.vmk_version,
            active_dek_version: self.dek_version,
            keyslots,
        }
    }

    /// Back to a key hierarchy. A summary cannot give back what a mechanism
    /// needs, so the caller supplies the keyslots themselves.
    pub fn to_manifest(&self, keyslots: Vec<QrseKeyslot>) -> (r: ManifestKeyHierarchy)
        ensures
            r == self.rebuilt(keyslots),
    {
        ManifestKeyHierarchy {
            volume_master_key_version: self.vmk_version,
            active_dek_version: self.dek_version,
            keyslots,
        }
    }

    /// The chain of keys that wraps the data key for a keyslot, in the standard
    /// hierarchy.
    pub fn wrapping_chain_for(slot: &QrseKeyslot) -> (r: Vec<KeyClass>)
        ensures
            r@ == hierarchy::wrapping_classes(slot@.kind),
    {
        KeyHierarchy::standard().wrapping_chain(slot)
    }

    /// The summary as a JSON object.
    pub open spec fn wire(self) -> JsonValue {
        JsonValue::Object(
            Seq::empty().push(("volume_id"@, JsonValue::Text(self.volume_id@))).push(
                ("dek_version"@, JsonValue::Num(self.dek_version as nat)),
            ).push(("vmk_version"@, JsonValue::Num(self.vmk_version as nat))).push(
                (
                    "keyslots"@,
                    JsonValue::List(self.keyslots@.map_values(|k: Keyslot| k.wire())),
                ),
            ),
        )
    }

    /// The summary as compact JSON.
    pub fn to_json(&self) -> (r: String)
        ensures
            r@ == json::compact(self.wire()),
    {
        let mut slots: Vec<Json> = Vec::new();
        let mut i: usize = 0;
        while i < self.keyslots.len()
            invariant
                i <= self.keyslots@.len(),
                slots@.len() == i,
                forall|k: int| 0 <= k < i ==> (#[trigger] slots@[k])@ == self.keyslots@[k].wire(),
            decreases self.keyslots@.len() - i,
        {
            slots.push(self.keyslots[i].to_wire());
            i = i + 1;
        }
        let list = json::list_value(slots);
        assert(list@->List_0 =~= self.keyslots@.map_values(|k: Keyslot| k.wire()));
        let mut o = JsonObject::new();
        o.put_text("volume_id", self.volume_id.as_str());
        o.put_num("dek_version", self.dek_version);
        o.put_num("vmk_version", self.vmk_version);
        o.put("keyslots", list);
        o.finish().to_compact()
    }
}

/// Summing up a hierarchy and building it again from the summary and its own
/// keyslots gives it back.
pub proof fn summary_round_trip(s: StorageKeyHierarchy, mh: ManifestKeyHierarchy)
    requires
        s.summarizes(mh),
    ensures
        s.rebuilt(mh.keyslots) == mh,
{
}

} // verus!
