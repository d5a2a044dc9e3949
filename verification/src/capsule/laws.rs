//! What capsule verification is for, stated over its calls.
use vstd::prelude::*;

use crate::capsule;
use crate::capsule::{
    CapsuleError, CapsuleManifest, Signature, SignatureStatus, TrustStore, UntrustedManifest,
    VerifiedManifest,
};
use crate::json;
use crate::primitives;
use crate::text;

verus! {

/// A store trusts the keys that were added to it, and no other; adding one leaves
/// the version alone.
pub proof fn store_trusts_what_was_added(
    s: TrustStore,
    key: &str,
    t: TrustStore,
    other: &str,
    before: bool,
    after: bool,
)
    requires
        call_ensures(TrustStore::trust_key, (s, key), t),
        call_ensures(TrustStore::trusts, (&s, other), before),
        call_ensures(TrustStore::trusts, (&t, other), after),
    ensures
        other@ == key@ ==> after,
        other@ != key@ ==> after == before,
        t.version() == s.version(),
{
}

/// A new store trusts nobody.
pub proof fn new_store_trusts_nobody(version: u64, s: TrustStore, key: &str, r: bool)
    requires
        call_ensures(TrustStore::new, (version,), s),
        call_ensures(TrustStore::trusts, (&s, key), r),
    ensures
        !r,
        s.version() == version,
{
}

/// The content has the declared hash.
pub open spec fn has_hash(content: Seq<u8>, declared: Seq<char>) -> bool {
    declared == "sha384:"@ + primitives::hex_text(primitives::sha384(content))
}

/// A capsule is verified exactly where it carries a signature of a trusted key,
/// wants no newer hypervisor than this host's, and whatever content is at hand has
/// the hash that it declares; and then it is the same capsule.
pub proof fn verified_capsule_is_signed_and_pinned(
    u: UntrustedManifest,
    trust: &TrustStore,
    image: Option<&[u8]>,
    disk: Option<&[u8]>,
    r: Result<VerifiedManifest, CapsuleError>,
)
    requires
        call_ensures(UntrustedManifest::verify, (u, trust, image, disk), r),
    ensures
        r is Ok <==> {
            &&& exists|i: int|
                0 <= i < u.contents().signatures@.len() && trust.keys().contains(
                    (#[trigger] u.contents().signatures@[i]).key_id@,
                )
            &&& u.contents().hypervisor_min_version <= trust.version()
            &&& image is Some ==> has_hash(image->0@, u.contents().image_hash@)
            &&& disk is Some ==> has_hash(disk->0@, u.contents().disk_hash@)
        },
        r matches Ok(v) ==> v.contents() == u.contents(),
{
    let m = u.contents();
    let sigs = m.signatures@;
    if exists|i: int| 0 <= i < sigs.len() && trust.keys().contains((#[trigger] sigs[i]).key_id@) {
        let i = choose|i: int|
            0 <= i < sigs.len() && trust.keys().contains((#[trigger] sigs[i]).key_id@);
        assert(capsule::trusted_at(sigs, trust.keys(), i));
    }
    if capsule::status_of(sigs, trust.keys()) is Some {
        if exists|i: int| capsule::fully_trusted_at(sigs, trust.keys(), i) {
            let i = choose|i: int| capsule::fully_trusted_at(sigs, trust.keys(), i);
            assert(trust.keys().contains(sigs[i].key_id@));
        } else {
            let i = choose|i: int| capsule::trusted_at(sigs, trust.keys(), i);
            assert(trust.keys().contains(sigs[i].key_id@));
        }
    }
}

/// The status tells how strongly the trusted keys have signed: fully where one of
/// their signatures is not for the transition only.
pub proof fn status_tells_the_strongest_signature(
    u: UntrustedManifest,
    trust: &TrustStore,
    image: Option<&[u8]>,
    disk: Option<&[u8]>,
    v: VerifiedManifest,
    status: SignatureStatus,
)
    requires
        call_ensures(
            UntrustedManifest::verify,
            (u, trust, image, disk),
            Ok::<VerifiedManifest, CapsuleError>(v),
        ),
        call_ensures(VerifiedManifest::signature_status, (&v,), status),
    ensures
        status == SignatureStatus::Trusted <==> exists|i: int|
            0 <= i < u.contents().signatures@.len() && trust.keys().contains(
                (#[trigger] u.contents().signatures@[i]).key_id@,
            ) && u.contents().signatures@[i].status@ != "transition"@,
{
    let sigs = u.contents().signatures@;
    if exists|i: int|
        0 <= i < sigs.len() && trust.keys().contains((#[trigger] sigs[i]).key_id@)
            && sigs[i].status@ != "transition"@ {
        let i = choose|i: int|
            0 <= i < sigs.len() && trust.keys().contains((#[trigger] sigs[i]).key_id@)
                && sigs[i].status@ != "transition"@;
        assert(capsule::fully_trusted_at(sigs, trust.keys(), i));
    }
    if exists|i: int| capsule::fully_trusted_at(sigs, trust.keys(), i) {
        let i = choose|i: int| capsule::fully_trusted_at(sigs, trust.keys(), i);
        assert(trust.keys().contains(sigs[i].key_id@));
    }
}

/// Each refusal has its own ground, and the first of them is the error: no
/// signature, too old a hypervisor, no trusted key, an image and then a disk with
/// another hash.
pub proof fn refusal_names_the_first_ground(
    u: UntrustedManifest,
    trust: &TrustStore,
    image: Option<&[u8]>,
    disk: Option<&[u8]>,
    e: CapsuleError,
)
    requires
        call_ensures(
            UntrustedManifest::verify,
            (u, trust, image, disk),
            Err::<VerifiedManifest, CapsuleError>(e),
        ),
    ensures
        u.contents().signatures@.len() == 0 <==> e == CapsuleError::Unsigned,
        u.contents().signatures@.len() > 0 && u.contents().hypervisor_min_version > trust.version()
            <==> e is HypervisorTooOld,
        e is HypervisorTooOld ==> e == (CapsuleError::HypervisorTooOld {
            have: trust.version(),
            need: u.contents().hypervisor_min_version,
        }),
        e == CapsuleError::UntrustedSigner ==> forall|i: int|
            0 <= i < u.contents().signatures@.len() ==> !trust.keys().contains(
                (#[trigger] u.contents().signatures@[i]).key_id@,
            ),
        e matches CapsuleError::HashMismatch { which } ==> {
            &&& which@ == "image"@ || which@ == "disk"@
            &&& which@ == "image"@ ==> image is Some && !has_hash(
                image->0@,
                u.contents().image_hash@,
            )
            &&& which@ == "disk"@ ==> disk is Some && !has_hash(disk->0@, u.contents().disk_hash@)
        },
{
    reveal_strlit("image");
    reveal_strlit("disk");
    assert("image"@.len() != "disk"@.len());
    let sigs = u.contents().signatures@;
    if e == CapsuleError::UntrustedSigner {
        assert forall|i: int| 0 <= i < sigs.len() implies !trust.keys().contains(
            (#[trigger] sigs[i]).key_id@,
        ) by {
            assert(!capsule::trusted_at(sigs, trust.keys(), i));
        }
    }
}

/// A document that was read is taken as it stands, and only with the known schema.
pub proof fn only_the_known_schema_is_taken(
    parsed: Result<CapsuleManifest, String>,
    r: Result<UntrustedManifest, CapsuleError>,
)
    requires
        call_ensures(UntrustedManifest::accept, (parsed,), r),
    ensures
        r is Ok <==> parsed is Ok && parsed->Ok_0.schema@ == "chain.vm_capsule.v1"@,
        r matches Ok(u) ==> parsed == Ok::<CapsuleManifest, String>(u.contents()),
        parsed matches Err(m) ==> r == Err::<UntrustedManifest, CapsuleError>(
            CapsuleError::Parse(m),
        ),
        parsed is Ok && r is Err ==> r == Err::<UntrustedManifest, CapsuleError>(
            CapsuleError::BadSchema(parsed->Ok_0.schema),
        ),
{
}

/// A document over 64 KiB is refused for its size alone.
pub proof fn large_documents_are_not_read<F: FnOnce(&[u8]) -> Result<CapsuleManifest, String>>(
    bytes: &[u8],
    read: F,
    r: Result<UntrustedManifest, CapsuleError>,
)
    requires
        call_ensures(UntrustedManifest::parse::<F>, (bytes, read), r),
    ensures
        bytes@.len() > 64 * 1024 ==> r is Err && r->Err_0 is TooLarge,
        bytes@.len() <= 64 * 1024 ==> !(r is Err && r->Err_0 is TooLarge),
{
}

/// Two signatures that hold the same.
pub open spec fn same_signature(a: Signature, b: Signature) -> bool {
    a.alg@ == b.alg@ && a.key_id@ == b.key_id@ && a.status@ == b.status@
}

/// The bytes that receipts hash pin every field of a capsule, each signature
/// included.
pub proof fn canonical_bytes_pin_every_field(
    a: &VerifiedManifest,
    b: &VerifiedManifest,
    x: Vec<u8>,
    y: Vec<u8>,
)
    requires
        call_ensures(VerifiedManifest::canonical_bytes, (a,), x),
        call_ensures(VerifiedManifest::canonical_bytes, (b,), y),
        x@ == y@,
    ensures
        ({
            let (m, n) = (a.contents(), b.contents());
            &&& m.schema@ == n.schema@ && m.vm_id@ == n.vm_id@ && m.tenant_id@ == n.tenant_id@
            &&& m.image_hash@ == n.image_hash@ && m.disk_hash@ == n.disk_hash@
            &&& m.hypervisor_min_version == n.hypervisor_min_version
            &&& m.boot_policy_version == n.boot_policy_version
            &&& text::views(m.devices.passthrough@) == text::views(n.devices.passthrough@)
            &&& text::views(m.devices.virtio@) == text::views(n.devices.virtio@)
            &&& m.memory.max_mb == n.memory.max_mb
            &&& m.memory.allow_balloon == n.memory.allow_balloon
            &&& m.cpu.vcpus == n.cpu.vcpus && m.cpu.cpuid_profile@ == n.cpu.cpuid_profile@
            &&& m.network.mode@ == n.network.mode@
            &&& m.network.egress_policy@ == n.network.egress_policy@
            &&& m.storage.cipher@ == n.storage.cipher@
            &&& m.storage.integrity@ == n.storage.integrity@
            &&& m.storage.key_version == n.storage.key_version
            &&& m.signatures@.len() == n.signatures@.len()
            &&& forall|i: int|
                0 <= i < m.signatures@.len() ==> same_signature(
                    #[trigger] m.signatures@[i],
                    n.signatures@[i],
                )
        }),
{
    let (m, n) = (a.contents(), b.contents());
    text::utf8_is_injective(json::compact(m.wire()), json::compact(n.wire()));
    json::unambiguous::compact_is_injective(m.wire(), n.wire());
    let (p, q) = (m.wire()->Object_0, n.wire()->Object_0);
    assert(p[0] == q[0] && p[1] == q[1] && p[2] == q[2] && p[3] == q[3] && p[4] == q[4]);
    assert(p[5] == q[5] && p[6] == q[6] && p[7] == q[7] && p[8] == q[8] && p[9] == q[9]);
    assert(p[10] == q[10] && p[11] == q[11] && p[12] == q[12]);
    let (d, e) = (p[7].1->Object_0, q[7].1->Object_0);
    assert(d[0] == e[0] && d[1] == e[1]);
    json::unambiguous::text_list_pins_texts(m.devices.passthrough@, n.devices.passthrough@);
    json::unambiguous::text_list_pins_texts(m.devices.virtio@, n.devices.virtio@);
    let (d, e) = (p[8].1->Object_0, q[8].1->Object_0);
    assert(d[0] == e[0] && d[1] == e[1]);
    let (d, e) = (p[9].1->Object_0, q[9].1->Object_0);
    assert(d[0] == e[0] && d[1] == e[1]);
    let (d, e) = (p[10].1->Object_0, q[10].1->Object_0);
    assert(d[0] == e[0] && d[1] == e[1]);
    let (d, e) = (p[11].1->Object_0, q[11].1->Object_0);
    assert(d[0] == e[0] && d[1] == e[1] && d[2] == e[2]);
    let (s, t) = (p[12].1->List_0, q[12].1->List_0);
    assert(s.len() == m.signatures@.len() && t.len() == n.signatures@.len());
    assert forall|i: int| 0 <= i < m.signatures@.len() implies same_signature(
        #[trigger] m.signatures@[i],
        n.signatures@[i],
    ) by {
        assert(s[i] == m.signatures@[i].wire() && t[i] == n.signatures@[i].wire());
        let (u, v) = (s[i]->Object_0, t[i]->Object_0);
        assert(u[0] == v[0] && u[1] == v[1] && u[2] == v[2]);
    }
}

} // verus!
