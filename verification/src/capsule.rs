//! VM capsule manifests, split into parsed and trusted.
//!
//! A manifest read from bytes is an [`UntrustedManifest`] and cannot launch a
//! VM. It becomes a [`VerifiedManifest`] only through
//! [`UntrustedManifest::verify`] against a [`TrustStore`], so that an unsigned
//! capsule cannot run is a property of the types.
use vstd::prelude::*;

use crate::json;
use crate::json::{Json, JsonObject, JsonValue};
use crate::primitives;
use crate::text;

pub mod laws;

verus! {

/// Schema of a capsule manifest.
pub const CAPSULE_SCHEMA: &'static str = "chain.vm_capsule.v1";

/// Upper bound on a manifest document, held before it is read.
pub const MAX_MANIFEST_BYTES: usize = 65536;

/// What a capsule asks for and what it consists of.
#[derive(Debug, PartialEq, Eq)]
pub struct CapsuleManifest {
    /// Schema of this manifest.
    pub schema: String,
    /// VM that the capsule describes.
    pub vm_id: String,
    /// Tenant that owns it.
    pub tenant_id: String,
    /// Content hash of the boot image.
    pub image_hash: String,
    /// Content hash of the root disk image.
    pub disk_hash: String,
    /// Oldest hypervisor that may run it.
    pub hypervisor_min_version: u64,
    /// Version of its boot policy.
    pub boot_policy_version: u64,
    /// Devices.
    pub devices: DeviceSpec,
    /// Memory.
    pub memory: MemorySpec,
    /// Processors.
    pub cpu: CpuSpec,
    /// Network.
    pub network: NetworkSpec,
    /// Storage.
    pub storage: StorageSpec,
    /// Signatures.
    pub signatures: Vec<Signature>,
}

/// Devices of a capsule.
#[derive(Debug, PartialEq, Eq)]
pub struct DeviceSpec {
    /// Devices passed through.
    pub passthrough: Vec<String>,
    /// Paravirtual devices.
    pub virtio: Vec<String>,
}

/// Memory of a capsule.
#[derive(Debug, PartialEq, Eq)]
pub struct MemorySpec {
    /// Upper bound in MiB.
    pub max_mb: u64,
    /// Whether ballooning is allowed.
    pub allow_balloon: bool,
}

/// Processors of a capsule.
#[derive(Debug, PartialEq, Eq)]
pub struct CpuSpec {
    /// Number of virtual processors.
    pub vcpus: u32,
    /// Profile of the processor identification.
    pub cpuid_profile: String,
}

/// Network of a capsule.
#[derive(Debug, PartialEq, Eq)]
pub struct NetworkSpec {
    /// Network mode.
    pub mode: String,
    /// Egress policy.
    pub egress_policy: String,
}

/// Storage of a capsule.
#[derive(Debug, PartialEq, Eq)]
pub struct StorageSpec {
    /// Cipher.
    pub cipher: String,
    /// Integrity protection.
    pub integrity: String,
    /// Version of the key.
    pub key_version: u32,
}

/// A signature of a capsule.
#[derive(Debug, PartialEq, Eq)]
pub struct Signature {
    /// Algorithm.
    pub alg: String,
    /// Signing key.
    pub key_id: String,
    /// `"active"`, or `"transition"` for classical compatibility while keys
    /// migrate.
    pub status: String,
}

impl Clone for DeviceSpec {
    fn clone(&self) -> (r: Self)
        ensures
            r.passthrough@ == self.passthrough@,
            r.virtio@ == self.virtio@,
    {
        DeviceSpec {
            passthrough: self.passthrough.clone(),
            virtio: self.virtio.clone(),
        }
    }
}

impl Clone for MemorySpec {
    fn clone(&self) -> (r: Self)
        ensures
            r == *self,
    {
        MemorySpec {
            max_mb: self.max_mb,
            allow_balloon: self.allow_balloon,
        }
    }
}

impl Clone for CpuSpec {
    fn clone(&self) -> (r: Self)
        ensures
            r == *self,
    {
        CpuSpec {
            vcpus: self.vcpus,
            cpuid_profile: self.cpuid_profile.clone(),
        }
    }
}

impl Clone for NetworkSpec {
    fn clone(&self) -> (r: Self)
        ensures
            r == *self,
    {
        NetworkSpec {
            mode: self.mode.clone(),
            egress_policy: self.egress_policy.clone(),
        }
    }
}

impl Clone for StorageSpec {
    fn clone(&self) -> (r: Self)
        ensures
            r == *self,
    {
        StorageSpec {
            cipher: self.cipher.clone(),
            integrity: self.integrity.clone(),
            key_version: self.key_version,
        }
    }
}

impl Clone for Signature {
    fn clone(&self) -> (r: Self)
        ensures
            r == *self,
    {
        Signature {
            alg: self.alg.clone(),
            key_id: self.key_id.clone(),
            status: self.status.clone(),
        }
    }
}

/// The status of a signature that does not say.
pub fn default_sig_status() -> (r: String)
    ensures
        r@ == "active"@,
{
    "active".to_string()
}

impl Signature {
    /// The signature as a JSON object.
    pub open spec fn wire(self) -> JsonValue {
        JsonValue::Object(
            Seq::empty().push(("alg"@, JsonValue::Text(self.alg@))).push(
                ("key_id"@, JsonValue::Text(self.key_id@)),
            ).push(("status"@, JsonValue::Text(self.status@))),
        )
    }

    /// The signature as a JSON object.
    fn to_wire(&self) -> (r: Json)
        ensures
            r@ == self.wire(),
    {
        let mut o = JsonObject::new();
        o.put_text("alg", self.alg.as_str());
        o.put_text("key_id", self.key_id.as_str());
        o.put_text("status", self.status.as_str());
        o.finish()
    }

    /// Only a compatibility signature.
    pub open spec fn is_transition(self) -> bool {
        self.status@ == "transition"@
    }
}

impl DeviceSpec {
    /// The devices as a JSON object.
    pub open spec fn wire(self) -> JsonValue {
        JsonValue::Object(
            Seq::empty().push(
                ("passthrough"@, json::text_list(text::views(self.passthrough@))),
            ).push(("virtio"@, json::text_list(text::views(self.virtio@)))),
        )
    }

    /// The devices as a JSON object.
    fn to_wire(&self) -> (r: Json)
        ensures
            r@ == self.wire(),
    {
        let mut o = JsonObject::new();
        o.put("passthrough", json::text_list_value(&self.passthrough));
        o.put("virtio", json::text_list_value(&self.virtio));
        o.finish()
    }
}

impl MemorySpec {
    /// The memory as a JSON object.
    pub open spec fn wire(self) -> JsonValue {
        JsonValue::Object(
            Seq::empty().push(("max_mb"@, JsonValue::Num(self.max_mb as nat))).push(
                ("allow_balloon"@, JsonValue::Bool(self.allow_balloon)),
            ),
        )
    }

    /// The memory as a JSON object.
    fn to_wire(&self) -> (r: Json)
        ensures
            r@ == self.wire(),
    {
        let mut o = JsonObject::new();
        o.put_num("max_mb", self.max_mb);
        o.put_bool("allow_balloon", self.allow_balloon);
        o.finish()
    }
}

impl CpuSpec {
    /// The processors as a JSON object.
    pub open spec fn wire(self) -> JsonValue {
        JsonValue::Object(
            Seq::empty().push(("vcpus"@, JsonValue::Num(self.vcpus as nat))).push(
                ("cpuid_profile"@, JsonValue::Text(self.cpuid_profile@)),
            ),
        )
    }

    /// The processors as a JSON object.
    fn to_wire(&self) -> (r: Json)
        ensures
            r@ == self.wire(),
    {
        let mut o = JsonObject::new();
        o.put_num("vcpus", self.vcpus as u64);
        o.put_text("cpuid_profile", self.cpuid_profile.as_str());
        o.finish()
    }
}

impl NetworkSpec {
    /// The network as a JSON object.
    pub open spec fn wire(self) -> JsonValue {
        JsonValue::Object(
            Seq::empty().push(("mode"@, JsonValue::Text(self.mode@))).push(
                ("egress_policy"@, JsonValue::Text(self.egress_policy@)),
            ),
        )
    }

    /// The network as a JSON object.
    fn to_wire(&self) -> (r: Json)
        ensures
            r@ == self.wire(),
    {
        let mut o = JsonObject::new();
        o.put_text("mode", self.mode.as_str());
        o.put_text("egress_policy", self.egress_policy.as_str());
        o.finish()
    }
}

impl StorageSpec {
    /// The storage as a JSON object.
    pub open spec fn wire(self) -> JsonValue {
        JsonValue::Object(
            Seq::empty().push(("cipher"@, JsonValue::Text(self.cipher@))).push(
                ("integrity"@, JsonValue::Text(self.integrity@)),
            ).push(("key_version"@, JsonValue::Num(self.key_version as nat))),
        )
    }

    /// The storage as a JSON object.
    fn to_wire(&self) -> (r: Json)
        ensures
            r@ == self.wire(),
    {
        let mut o = JsonObject::new();
        o.put_text("cipher", self.cipher.as_str());
        o.put_text("integrity", self.integrity.as_str());
        o.put_num("key_version", self.key_version as u64);
        o.finish()
    }
}

/// The signatures as a JSON list.
pub open spec fn signatures_wire(sigs: Seq<Signature>) -> JsonValue {
    JsonValue::List(sigs.map_values(|s: Signature| s.wire()))
}

/// The signatures as a JSON list.
fn signatures_to_wire(sigs: &Vec<Signature>) -> (r: Json)
    ensures
        r@ == signatures_wire(sigs@),
{
    let mut out: Vec<Json> = Vec::new();
    let mut i: usize = 0;
    while i < sigs.len()
        invariant
            i <= sigs@.len(),
            out@.len() == i,
            forall|k: int| 0 <= k < i ==> (#[trigger] out@[k])@ == sigs@[k].wire(),
        decreases sigs@.len() - i,
    {
        out.push(sigs[i].to_wire());
        i = i + 1;
    }
    let r = json::list_value(out);
    assert(r@->List_0 =~= signatures_wire(sigs@)->List_0);
    r
}

impl CapsuleManifest {
    /// The manifest as a JSON object.
    pub open spec fn wire(self) -> JsonValue {
        JsonValue::Object(
            Seq::empty().push(("schema"@, JsonValue::Text(self.schema@))).push(
                ("vm_id"@, JsonValue::Text(self.vm_id@)),
            ).push(("tenant_id"@, JsonValue::Text(self.tenant_id@))).push(
                ("image_hash"@, JsonValue::Text(self.image_hash@)),
            ).push(("disk_hash"@, JsonValue::Text(self.disk_hash@))).push(
                ("hypervisor_min_version"@, JsonValue::Num(self.hypervisor_min_version as nat)),
            ).push(
                ("boot_policy_version"@, JsonValue::Num(self.boot_policy_version as nat)),
            ).push(("devices"@, self.devices.wire())).push(("memory"@, self.memory.wire())).push(
                ("cpu"@, self.cpu.wire()),
            ).push(("network"@, self.network.wire())).push(("storage"@, self.storage.wire())).push(
                ("signatures"@, signatures_wire(self.signatures@)),
            ),
        )
    }

    /// The manifest as a JSON object.
    fn to_wire(&self) -> (r: Json)
        ensures
            r@ == self.wire(),
    {
        let mut o = JsonObject::new();
        o.put_text("schema", self.schema.as_str());
        o.put_text("vm_id", self.vm_id.as_str());
        o.put_text("tenant_id", self.tenant_id.as_str());
        o.put_text("image_hash", self.image_hash.as_str());
        o.put_text("disk_hash", self.disk_hash.as_str());
        o.put_num("hypervisor_min_version", self.hypervisor_min_version);
        o.put_num("boot_policy_version", self.boot_policy_version);
        o.put("devices", self.devices.to_wire());
        o.put("memory", self.memory.to_wire());
        o.put("cpu", self.cpu.to_wire());
        o.put("network", self.network.to_wire());
        o.put("storage", self.storage.to_wire());
        o.put("signatures", signatures_to_wire(&self.signatures));
        o.finish()
    }

    /// The bytes of the manifest as compact JSON.
    pub open spec fn canonical(self) -> Seq<u8> {
        text::utf8(json::compact(self.wire()))
    }

    /// The bytes of the manifest as compact JSON.
    fn to_canonical(&self) -> (r: Vec<u8>)
        ensures
            r@ == self.canonical(),
    {
        let t = self.to_wire().to_compact();
        text::bytes_of(t.as_str())
    }
}

impl Clone for CapsuleManifest {
    fn clone(&self) -> (r: Self)
        ensures
            r.wire() == self.wire(),
            r.signatures@ == self.signatures@,
    {
        CapsuleManifest {
            schema: self.schema.clone(),
            vm_id: self.vm_id.clone(),
            tenant_id: self.tenant_id.clone(),
            image_hash: self.image_hash.clone(),
            disk_hash: self.disk_hash.clone(),
            hypervisor_min_version: self.hypervisor_min_version,
            boot_policy_version: self.boot_policy_version,
            devices: self.devices.clone(),
            memory: self.memory.clone(),
            cpu: self.cpu.clone(),
            network: self.network.clone(),
            storage: self.storage.clone(),
            signatures: self.signatures.clone(),
        }
    }
}

/// A manifest that has been read and not validated. There is no way to launch
/// it.
#[derive(Debug, Clone, PartialEq, Eq)]
pub struct UntrustedManifest {
    inner: CapsuleManifest,
}

/// How strongly a capsule is signed.
#[derive(Debug, Clone, Copy, PartialEq, Eq, Structural)]
pub enum SignatureStatus {
    /// At least one full signature of a trusted key.
    Trusted,
    /// Only compatibility signatures of trusted keys.
    TransitionOnly,
}

/// The signing keys that this host trusts, and the hypervisor version that it
/// runs.
#[derive(Debug)]
pub struct TrustStore {
    trusted_key_ids: Vec<String>,
    min_hypervisor_version: u64,
}

impl TrustStore {
    /// No key is kept twice.
    #[verifier::type_invariant]
    spec fn distinct(self) -> bool {
        text::views(self.trusted_key_ids@).no_duplicates()
    }

    /// The keys that are trusted.
    pub closed spec fn keys(self) -> Set<Seq<char>> {
        text::views(self.trusted_key_ids@).to_set()
    }

    /// The hypervisor version that this host runs.
    pub closed spec fn version(self) -> u64 {
        self.min_hypervisor_version
    }

    /// A store that trusts nobody.
    pub fn new(min_hypervisor_version: u64) -> (r: Self)
        ensures
            r.keys() == Set::<Seq<char>>::empty(),
            r.version() == min_hypervisor_version,
    {
        let r = TrustStore { trusted_key_ids: Vec::new(), min_hypervisor_version };
        assert(r.keys() =~= Set::empty());
        r
    }

    /// The store that trusts `key_id` as well.
    pub fn trust_key(self, key_id: &str) -> (r: Self)
        ensures
            r.keys() == self.keys().insert(key_id@),
            r.version() == self.version(),
    {
        proof {
            use_type_invariant(&self);
        }
        let mut keys = self.trusted_key_ids;
        let ghost before = text::views(keys@);
        if text::contains(&keys, key_id) {
            assert(before.to_set() =~= before.to_set().insert(key_id@));
        } else {
            keys.push(key_id.to_string());
            let ghost after = text::views(keys@);
            assert(after =~= before.push(key_id@));
            assert(after.to_set() =~= before.to_set().insert(key_id@)) by {
                assert forall|k: Seq<char>|
                    after.to_set().contains(k) == before.to_set().insert(key_id@).contains(k) by {
                    if before.contains(k) {
                        let i = choose|i: int| 0 <= i < before.len() && before[i] == k;
                        assert(after[i] == k);
                    }
                    if k == key_id@ {
                        assert(after[before.len() as int] == k);
                    }
                }
            }
        }
        TrustStore { trusted_key_ids: keys, min_hypervisor_version: self.min_hypervisor_version }
    }

    /// Whether `key_id` is trusted.
    pub fn trusts(&self, key_id: &str) -> (r: bool)
        ensures
            r == self.keys().contains(key_id@),
    {
        text::contains(&self.trusted_key_ids, key_id)
    }
}

impl Default for TrustStore {
    fn default() -> (r: Self)
        ensures
            r.keys() == Set::<Seq<char>>::empty(),
            r.version() == 0,
    {
        TrustStore::new(0)
    }
}

impl Clone for TrustStore {
    fn clone(&self) -> (r: Self)
        ensures
            r.keys() == self.keys(),
            r.version() == self.version(),
    {
        proof {
            use_type_invariant(self);
        }
        let keys = self.trusted_key_ids.clone();
        assert(text::views(keys@) =~= text::views(self.trusted_key_ids@));
        TrustStore { trusted_key_ids: keys, min_hypervisor_version: self.min_hypervisor_version }
    }
}

/// Why a capsule was refused.
#[derive(Debug, PartialEq, Eq)]
pub enum CapsuleError {
    /// The document is larger than [`MAX_MANIFEST_BYTES`].
    TooLarge(usize),
    /// The document is not a manifest.
    Parse(String),
    /// The manifest has another schema.
    BadSchema(String),
    /// The manifest has no signatures.
    Unsigned,
    /// No signature is of a trusted key.
    UntrustedSigner,
    /// The manifest wants a newer hypervisor.
    HypervisorTooOld {
        /// Version that this host runs.
        have: u64,
        /// Version that the manifest wants.
        need: u64,
    },
    /// The manifest's boot policy is older than the tenant accepts.
    BootPolicyTooOld {
        /// Version of the manifest's boot policy.
        have: u64,
        /// Oldest version that the tenant accepts.
        need: u64,
    },
    /// Content does not have the hash that the manifest declares.
    HashMismatch {
        /// `"image"` or `"disk"`.
        which: &'static str,
    },
}

impl CapsuleError {
    /// What is shown of the error.
    pub open spec fn text(self) -> Seq<char> {
        match self {
            CapsuleError::TooLarge(n) => "manifest exceeds "@ + text::decimal(
                MAX_MANIFEST_BYTES as nat,
            ) + " byte bound ("@ + text::decimal(n as nat) + " bytes)"@,
            CapsuleError::Parse(m) => "manifest is not valid JSON: "@ + m@,
            CapsuleError::BadSchema(m) => "unsupported manifest schema: "@ + m@,
            CapsuleError::Unsigned => "manifest declares no signatures"@,
            CapsuleError::UntrustedSigner => "no signature from a trusted key"@,
            CapsuleError::HypervisorTooOld { have, need } => "hypervisor version "@
                + text::decimal(have as nat) + " below manifest minimum "@ + text::decimal(
                need as nat,
            ),
            CapsuleError::BootPolicyTooOld { have, need } => "boot policy version "@
                + text::decimal(have as nat) + " below tenant minimum "@ + text::decimal(
                need as nat,
            ),
            CapsuleError::HashMismatch { which } => which@ + " hash mismatch"@,
        }
    }

    /// What is shown of the error.
    pub fn message(&self) -> (r: String)
        ensures
            r@ == self.text(),
    {
        match self {
            CapsuleError::TooLarge(n) => {
                let mut out = "manifest exceeds ".to_string();
                out.append(text::decimal_text(MAX_MANIFEST_BYTES as u64).as_str());
                out.append(" byte bound (");
                out.append(text::decimal_text(*n as u64).as_str());
                out.append(" bytes)");
                out
            },
            CapsuleError::Parse(m) => text::joined("manifest is not valid JSON: ", m.as_str()),
            CapsuleError::BadSchema(m) => text::joined(
                "unsupported manifest schema: ",
                m.as_str(),
            ),
            CapsuleError::Unsigned => "manifest declares no signatures".to_string(),
            CapsuleError::UntrustedSigner => "no signature from a trusted key".to_string(),
            CapsuleError::HypervisorTooOld { have, need } => {
                let mut out = "hypervisor version ".to_string();
                out.append(text::decimal_text(*have).as_str());
                out.append(" below manifest minimum ");
                out.append(text::decimal_text(*need).as_str());
                out
            },
            CapsuleError::BootPolicyTooOld { have, need } => {
                let mut out = "boot policy version ".to_string();
                out.append(text::decimal_text(*have).as_str());
                out.append(" below tenant minimum ");
                out.append(text::decimal_text(*need).as_str());
                out
            },
            CapsuleError::HashMismatch { which } => text::joined(which, " hash mismatch"),
        }
    }
}

/// Signature number `i` is of a trusted key.
pub open spec fn trusted_at(sigs: Seq<Signature>, keys: Set<Seq<char>>, i: int) -> bool {
    0 <= i < sigs.len() && keys.contains(sigs[i].key_id@)
}

/// Signature number `i` is of a trusted key, and not only a compatibility
/// signature.
pub open spec fn fully_trusted_at(sigs: Seq<Signature>, keys: Set<Seq<char>>, i: int) -> bool {
    trusted_at(sigs, keys, i) && !sigs[i].is_transition()
}

/// How strongly the trusted keys have signed.
pub open spec fn status_of(sigs: Seq<Signature>, keys: Set<Seq<char>>) -> Option<SignatureStatus> {
    if exists|i: int| fully_trusted_at(sigs, keys, i) {
        Some(SignatureStatus::Trusted)
    } else if exists|i: int| trusted_at(sigs, keys, i) {
        Some(SignatureStatus::TransitionOnly)
    } else {
        None
    }
}

/// Content that is at hand has the declared hash.
pub open spec fn content_matches(content: Option<Seq<u8>>, declared: Seq<char>) -> bool {
    match content {
        Some(bytes) => primitives::sha384_hex_spec(bytes) == declared,
        None => true,
    }
}

/// The bytes of optional content.
pub open spec fn content_view(content: Option<&[u8]>) -> Option<Seq<u8>> {
    match content {
        Some(b) => Some(b@),
        None => None,
    }
}

/// The manifest passes every gate of the trust store, with this status.
pub open spec fn verifies(
    m: CapsuleManifest,
    keys: Set<Seq<char>>,
    version: u64,
    image: Option<Seq<u8>>,
    disk: Option<Seq<u8>>,
) -> bool {
    &&& m.signatures@.len() > 0
    &&& m.hypervisor_min_version <= version
    &&& status_of(m.signatures@, keys) is Some
    &&& content_matches(image, m.image_hash@)
    &&& content_matches(disk, m.disk_hash@)
}

/// Why a manifest does not pass; the first gate that fails gives the error.
pub open spec fn refusal(
    m: CapsuleManifest,
    keys: Set<Seq<char>>,
    version: u64,
    image: Option<Seq<u8>>,
    disk: Option<Seq<u8>>,
    e: CapsuleError,
) -> bool {
    if m.signatures@.len() == 0 {
        e == CapsuleError::Unsigned
    } else if m.hypervisor_min_version > version {
        e == (CapsuleError::HypervisorTooOld { have: version, need: m.hypervisor_min_version })
    } else if status_of(m.signatures@, keys) is None {
        e == CapsuleError::UntrustedSigner
    } else if !content_matches(image, m.image_hash@) {
        e matches CapsuleError::HashMismatch { which } && which@ == "image"@
    } else {
        e matches CapsuleError::HashMismatch { which } && which@ == "disk"@
    }
}

/// A manifest that passed verification. Only this can become a VM.
#[derive(Debug, PartialEq, Eq)]
pub struct VerifiedManifest {
    inner: CapsuleManifest,
    signature_status: SignatureStatus,
}

impl UntrustedManifest {
    /// The manifest inside.
    pub closed spec fn contents(self) -> CapsuleManifest {
        self.inner
    }

    /// What becomes of a manifest as it was read.
    pub open spec fn settled(
        parsed: Result<CapsuleManifest, String>,
        r: Result<UntrustedManifest, CapsuleError>,
    ) -> bool {
        match parsed {
            Err(m) => r == Err::<UntrustedManifest, CapsuleError>(CapsuleError::Parse(m)),
            Ok(inner) => if inner.schema@ == CAPSULE_SCHEMA@ {
                r matches Ok(u) && u.contents() == inner
            } else {
                r == Err::<UntrustedManifest, CapsuleError>(CapsuleError::BadSchema(inner.schema))
            },
        }
    }

    /// Read a manifest from raw bytes with `read`. A document over the bound is
    /// refused before it is read; the result is untrusted.
    pub fn parse<F: FnOnce(&[u8]) -> Result<CapsuleManifest, String>>(bytes: &[u8], read: F) -> (r:
        Result<UntrustedManifest, CapsuleError>)
        requires
            bytes@.len() <= MAX_MANIFEST_BYTES ==> call_requires(read, (bytes,)),
        ensures
            bytes@.len() > MAX_MANIFEST_BYTES ==> r == Err::<UntrustedManifest, CapsuleError>(
                CapsuleError::TooLarge(bytes@.len() as usize),
            ),
            bytes@.len() <= MAX_MANIFEST_BYTES ==> exists|
                parsed: Result<CapsuleManifest, String>,
            | call_ensures(read, (bytes,), parsed) && Self::settled(parsed, r),
    {
        if bytes.len() > MAX_MANIFEST_BYTES {
            return Err(CapsuleError::TooLarge(bytes.len()));
        }
        Self::accept(read(bytes))
    }

    /// Take a manifest as it was read; the result is untrusted.
    pub fn accept(parsed: Result<CapsuleManifest, String>) -> (r: Result<
        UntrustedManifest,
        CapsuleError,
    >)
        ensures
            Self::settled(parsed, r),
    {
        match parsed {
            Err(m) => Err(CapsuleError::Parse(m)),
            Ok(inner) => {
                if text::same(inner.schema.as_str(), CAPSULE_SCHEMA) {
                    Ok(UntrustedManifest { inner })
                } else {
                    Err(CapsuleError::BadSchema(inner.schema))
                }
            },
        }
    }

    /// The VM id, for logging before trust is established.
    pub fn vm_id(&self) -> (r: &str)
        ensures
            r@ == self.contents().vm_id@,
    {
        self.inner.vm_id.as_str()
    }

    /// The bytes that receipts hash.
    pub fn canonical_bytes(&self) -> (r: Vec<u8>)
        ensures
            r@ == self.contents().canonical(),
    {
        self.inner.to_canonical()
    }

    /// Promote to a [`VerifiedManifest`] or fail closed.
    ///
    /// `image_bytes` and `disk_bytes`, where they are at hand, must have the
    /// hashes that the manifest declares.
    pub fn verify(
        self,
        trust: &TrustStore,
        image_bytes: Option<&[u8]>,
        disk_bytes: Option<&[u8]>,
    ) -> (r: Result<VerifiedManifest, CapsuleError>)
        ensures
            match r {
                Ok(v) => {
                    &&& verifies(
                        self.contents(),
                        trust.keys(),
                        trust.version(),
                        content_view(image_bytes),
                        content_view(disk_bytes),
                    )
                    &&& v.contents() == self.contents()
                    &&& Some(v.status()) == status_of(self.contents().signatures@, trust.keys())
                },
                Err(e) => {
                    &&& !verifies(
                        self.contents(),
                        trust.keys(),
                        trust.version(),
                        content_view(image_bytes),
                        content_view(disk_bytes),
                    )
                    &&& refusal(
                        self.contents(),
                        trust.keys(),
                        trust.version(),
                        content_view(image_bytes),
                        content_view(disk_bytes),
                        e,
                    )
                },
            },
    {
        if self.inner.signatures.len() == 0 {
            return Err(CapsuleError::Unsigned);
        }
        if self.inner.hypervisor_min_version > trust.min_hypervisor_version {
            return Err(
                CapsuleError::HypervisorTooOld {
                    have: trust.min_hypervisor_version,
                    need: self.inner.hypervisor_min_version,
                },
            );
        }
        let signature_status = match signed_by(&self.inner.signatures, trust) {
            Some(s) => s,
            None => {
                return Err(CapsuleError::UntrustedSigner);
            },
        };
        if let Some(bytes) = image_bytes {
            if !text::same(hash_hex(bytes).as_str(), self.inner.image_hash.as_str()) {
                return Err(CapsuleError::HashMismatch { which: "image" });
            }
        }
        if let Some(bytes) = disk_bytes {
            if !text::same(hash_hex(bytes).as_str(), self.inner.disk_hash.as_str()) {
                return Err(CapsuleError::HashMismatch { which: "disk" });
            }
        }
        proof {
            status_is_signed_as(self.inner.signatures@, trust.keys());
        }
        Ok(VerifiedManifest { inner: self.inner, signature_status })
    }
}

/// How strongly the keys of the trust store have signed: a full signature is
/// preferred, a compatibility signature gives the weaker status.
fn signed_by(sigs: &Vec<Signature>, trust: &TrustStore) -> (r: Option<SignatureStatus>)
    ensures
        r == status_of(sigs@, trust.keys()),
{
    let mut status: Option<SignatureStatus> = None;
    let mut i: usize = 0;
    while i < sigs.len()
        invariant
            i <= sigs@.len(),
            forall|j: int| 0 <= j < i ==> !fully_trusted_at(sigs@, trust.keys(), j),
            status is None ==> forall|j: int| 0 <= j < i ==> !trusted_at(sigs@, trust.keys(), j),
            status is Some ==> status == Some(SignatureStatus::TransitionOnly) && exists|j: int|
                trusted_at(sigs@, trust.keys(), j),
        decreases sigs@.len() - i,
    {
        if trust.trusts(sigs[i].key_id.as_str()) {
            assert(trusted_at(sigs@, trust.keys(), i as int));
            if text::same(sigs[i].status.as_str(), "transition") {
                status = Some(SignatureStatus::TransitionOnly);
            } else {
                assert(fully_trusted_at(sigs@, trust.keys(), i as int));
                return Some(SignatureStatus::Trusted);
            }
        }
        i = i + 1;
    }
    status
}

impl VerifiedManifest {
    /// It is signed, by a signature as strong as the status says.
    #[verifier::type_invariant]
    spec fn signed(self) -> bool {
        signed_as(self.inner.signatures@, self.signature_status)
    }

    /// The manifest inside.
    pub closed spec fn contents(self) -> CapsuleManifest {
        self.inner
    }

    /// How strongly it is signed.
    pub closed spec fn status(self) -> SignatureStatus {
        self.signature_status
    }

    /// The manifest. It carries a signature, whatever manifest this is.
    pub fn manifest(&self) -> (r: &CapsuleManifest)
        ensures
            *r == self.contents(),
            r.signatures@.len() > 0,
            signed_as(r.signatures@, self.status()),
    {
        proof {
            use_type_invariant(&*self);
        }
        &self.inner
    }

    /// The VM id.
    pub fn vm_id(&self) -> (r: &str)
        ensures
            r@ == self.contents().vm_id@,
    {
        self.inner.vm_id.as_str()
    }

    /// How strongly the capsule is signed.
    pub fn signature_status(&self) -> (r: SignatureStatus)
        ensures
            r == self.status(),
    {
        self.signature_status
    }

    /// The bytes that receipts hash.
    pub fn canonical_bytes(&self) -> (r: Vec<u8>)
        ensures
            r@ == self.contents().canonical(),
    {
        self.inner.to_canonical()
    }
}

impl Clone for VerifiedManifest {
    fn clone(&self) -> (r: Self)
        ensures
            r.contents().wire() == self.contents().wire(),
            r.contents().signatures@ == self.contents().signatures@,
            r.status() == self.status(),
    {
        proof {
            use_type_invariant(self);
        }
        VerifiedManifest {
            inner: self.inner.clone(),
            signature_status: self.signature_status,
        }
    }
}

/// There is a signature as strong as the status says.
pub open spec fn signed_as(sigs: Seq<Signature>, status: SignatureStatus) -> bool {
    match status {
        SignatureStatus::Trusted => exists|i: int|
            0 <= i < sigs.len() && !(#[trigger] sigs[i]).is_transition(),
        SignatureStatus::TransitionOnly => exists|i: int|
            0 <= i < sigs.len() && (#[trigger] sigs[i]).is_transition(),
    }
}

proof fn status_is_signed_as(sigs: Seq<Signature>, keys: Set<Seq<char>>)
    requires
        status_of(sigs, keys) is Some,
    ensures
        signed_as(sigs, status_of(sigs, keys)->0),
{
    if exists|i: int| fully_trusted_at(sigs, keys, i) {
        let i = choose|i: int| fully_trusted_at(sigs, keys, i);
        assert(!sigs[i].is_transition());
    } else {
        let i = choose|i: int| trusted_at(sigs, keys, i);
        assert(!fully_trusted_at(sigs, keys, i));
        assert(sigs[i].is_transition());
    }
}

/// `"sha384:<hex>"` of the bytes, as manifests declare it.
pub fn hash_hex(bytes: &[u8]) -> (r: String)
    ensures
        r@ == primitives::sha384_hex_spec(bytes@),
        r@.len() == 103,
{
    primitives::sha384_hex(bytes)
}

/// An unsigned capsule verifies under no trust store.
pub proof fn unsigned_never_verifies(
    m: CapsuleManifest,
    keys: Set<Seq<char>>,
    version: u64,
    image: Option<Seq<u8>>,
    disk: Option<Seq<u8>>,
)
    requires
        m.signatures@.len() == 0,
    ensures
        !verifies(m, keys, version, image, disk),
{
}

/// A capsule that verifies is signed by a key that the host trusts.
pub proof fn verified_has_trusted_signer(
    m: CapsuleManifest,
    keys: Set<Seq<char>>,
    version: u64,
    image: Option<Seq<u8>>,
    disk: Option<Seq<u8>>,
)
    requires
        verifies(m, keys, version, image, disk),
    ensures
        exists|i: int| trusted_at(m.signatures@, keys, i),
        m.hypervisor_min_version <= version,
{
    if exists|i: int| fully_trusted_at(m.signatures@, keys, i) {
        let i = choose|i: int| fully_trusted_at(m.signatures@, keys, i);
        assert(trusted_at(m.signatures@, keys, i));
    }
}

/// Trusting more keys never turns a capsule that verifies into one that does
/// not, and never weakens its status.
pub proof fn more_trust_keeps_verified(
    m: CapsuleManifest,
    keys: Set<Seq<char>>,
    more: Set<Seq<char>>,
    version: u64,
    image: Option<Seq<u8>>,
    disk: Option<Seq<u8>>,
)
    requires
        verifies(m, keys, version, image, disk),
        keys.subset_of(more),
    ensures
        verifies(m, more, version, image, disk),
        status_of(m.signatures@, keys) == Some(SignatureStatus::Trusted) ==> status_of(
            m.signatures@,
            more,
        ) == Some(SignatureStatus::Trusted),
{
    verified_has_trusted_signer(m, keys, version, image, disk);
    let i = choose|i: int| trusted_at(m.signatures@, keys, i);
    assert(trusted_at(m.signatures@, more, i));
    if exists|i: int| fully_trusted_at(m.signatures@, keys, i) {
        let i = choose|i: int| fully_trusted_at(m.signatures@, keys, i);
        assert(fully_trusted_at(m.signatures@, more, i));
    }
}

/// Content at hand that verifies has the digest of any other content that
/// verifies under the same manifest.
pub proof fn verified_content_is_pinned(
    m: CapsuleManifest,
    keys: Set<Seq<char>>,
    version: u64,
    a: Seq<u8>,
    b: Seq<u8>,
    disk: Option<Seq<u8>>,
)
    requires
        verifies(m, keys, version, Some(a), disk),
        verifies(m, keys, version, Some(b), disk),
    ensures
        primitives::sha384(a) == primitives::sha384(b),
{
    primitives::sha384_hex_keeps_digest(a, b);
}

} // verus!
