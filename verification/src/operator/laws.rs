//! What the operator's commands are for, stated over their calls.
use vstd::prelude::*;

use crate::json;
use crate::json::{Json, JsonValue};
use crate::operator::manifest as commands;
use crate::operator::trust;
use crate::operator::trust::CliError;
use crate::primitives;
use crate::qrse;
use crate::qrse::crypto;
use crate::qrse::crypto::{DeterministicSigner, DeterministicVerifier, Verifier};
use crate::qrse::downgrade;
use crate::qrse::keyslot::{Keyslot, KeyslotStatus};
use crate::qrse::manifest;
use crate::qrse::manifest::{ManifestSignature, ManifestView, QrsdManifest};
use crate::storage::key_hierarchy::keyslot_kind_label;
use crate::text;

verus! {

// ------------------------------------------------------------------- trust

/// Every byte is shown as two hexadecimal digits that are worth it.
pub proof fn hexadecimal_shows_every_byte(bytes: &[u8], r: String, i: int)
    requires
        call_ensures(trust::to_hex, (bytes,), r),
        0 <= i < bytes@.len(),
    ensures
        r@.len() == 2 * bytes@.len(),
        text::laws::digit_worth(r@[2 * i]) * 16 + text::laws::digit_worth(r@[2 * i + 1])
            == bytes@[i],
{
    let b = bytes@[i] as nat;
    assert((2 * i) / 2 == i && (2 * i) % 2 == 0);
    assert((2 * i + 1) / 2 == i && (2 * i + 1) % 2 == 1);
    assert(r@[2 * i] == json::hex_digit(b / 16));
    assert(r@[2 * i + 1] == json::hex_digit(b % 16));
}

/// The entry is a key id without an equals sign, an equals sign, and a seed.
pub open spec fn entry_gives(entry: Seq<char>, key: Seq<char>, seed: Seq<char>) -> bool {
    entry == key + seq!['='] + seed && !key.contains('=')
}

proof fn entry_splits(entry: Seq<char>)
    ensures
        trust::split_entry(entry) is Some <==> entry.contains('='),
        trust::split_entry(entry) matches Some(p) ==> entry_gives(entry, p.0, p.1),
{
    if entry.contains('=') {
        let n = choose|n: int| 0 <= n < entry.len() && entry[n] == '=';
        least_equals(entry, n);
    }
    if exists|i: int| trust::first_equals(entry, i) {
        let i = choose|i: int| trust::first_equals(entry, i);
        let (key, seed) = (entry.take(i), entry.skip(i + 1));
        assert(entry =~= key + seq!['='] + seed);
        if key.contains('=') {
            let j = choose|j: int| 0 <= j < key.len() && key[j] == '=';
            assert(entry[j] == '=');
        }
    }
}

proof fn least_equals(entry: Seq<char>, n: int)
    requires
        0 <= n < entry.len(),
        entry[n] == '=',
    ensures
        exists|i: int| trust::first_equals(entry, i),
    decreases n,
{
    if exists|j: int| 0 <= j < n && #[trigger] entry[j] == '=' {
        let j = choose|j: int| 0 <= j < n && #[trigger] entry[j] == '=';
        least_equals(entry, j);
    } else {
        assert(trust::first_equals(entry, n));
    }
}

proof fn entry_splits_one_way(
    entry: Seq<char>,
    k: Seq<char>,
    s: Seq<char>,
    l: Seq<char>,
    t: Seq<char>,
)
    requires
        entry_gives(entry, k, s),
        entry_gives(entry, l, t),
    ensures
        k == l && s == t,
{
    if k.len() < l.len() {
        assert(l[k.len() as int] == entry[k.len() as int]);
        assert(l.contains('='));
    } else if l.len() < k.len() {
        assert(k[l.len() as int] == entry[l.len() as int]);
        assert(k.contains('='));
    }
    let n = k.len() as int;
    assert(entry.take(n) =~= k && entry.take(n) =~= l);
    assert(entry.skip(n + 1) =~= s && entry.skip(n + 1) =~= t);
}

/// The entries are read exactly where each has an equals sign, each as what stands
/// before its first one and what follows. Otherwise the first entry without one is
/// named, as a usage error.
pub proof fn entries_are_key_and_seed(
    entries: &[String],
    r: Result<Vec<(String, String)>, CliError>,
)
    requires
        call_ensures(trust::parse_trust, (entries,), r),
    ensures
        r is Ok <==> forall|i: int| 0 <= i < entries@.len() ==> (#[trigger] entries@[i])@.contains('='),
        r matches Ok(pairs) ==> pairs@.len() == entries@.len() && forall|i: int|
            0 <= i < entries@.len() ==> entry_gives(
                (#[trigger] entries@[i])@,
                pairs@[i].0@,
                pairs@[i].1@,
            ),
        r matches Err(e) ==> e.code == 1 && exists|i: int|
            {
                &&& 0 <= i < entries@.len()
                &&& !(#[trigger] entries@[i])@.contains('=')
                &&& e.message@ == "malformed --trust `"@ + entries@[i]@
                    + "` (expected key_id=seed)"@
                &&& forall|j: int| 0 <= j < i ==> (#[trigger] entries@[j])@.contains('=')
            },
{
    assert forall|i: int| 0 <= i < entries@.len() implies (trust::split_entry(
        (#[trigger] entries@[i])@,
    ) is Some <==> entries@[i]@.contains('=')) by {
        entry_splits(entries@[i]@);
    }
    if let Ok(pairs) = r {
        assert(trust::pairs_view(pairs@).len() == trust::pairs_of(entries@).len());
        assert forall|i: int| 0 <= i < entries@.len() implies entry_gives(
            (#[trigger] entries@[i])@,
            pairs@[i].0@,
            pairs@[i].1@,
        ) by {
            entry_splits(entries@[i]@);
            assert(trust::pairs_view(pairs@)[i] == trust::pairs_of(entries@)[i]);
        }
    } else {
        let e = r->Err_0;
        let i = choose|i: int| #[trigger]
            trust::first_malformed(entries@, i) && e.message@ == trust::malformed_text(
                entries@[i]@,
            );
        assert(!entries@[i]@.contains('='));
    }
}

/// A key's seed is that of the first pair with its id, and there is none only
/// where no pair has it.
pub proof fn seed_is_of_the_first_pair<'a>(
    pairs: &'a Vec<(String, String)>,
    key: &str,
    r: Option<&'a str>,
)
    requires
        call_ensures(trust::find_seed, (pairs, key), r),
    ensures
        r matches Some(seed) ==> exists|i: int|
            {
                &&& 0 <= i < pairs@.len()
                &&& (#[trigger] pairs@[i]).0@ == key@ && pairs@[i].1@ == seed@
                &&& forall|j: int| 0 <= j < i ==> (#[trigger] pairs@[j]).0@ != key@
            },
        r is None ==> forall|i: int| 0 <= i < pairs@.len() ==> (#[trigger] pairs@[i]).0@ != key@,
{
    let p = trust::pairs_view(pairs@);
    assert(p.len() == pairs@.len());
    assert forall|i: int| 0 <= i < p.len() implies (#[trigger] pairs@[i]).0@ == p[i].0
        && pairs@[i].1@ == p[i].1 by {}
    let i = first_pair(p, key@);
    if i < p.len() {
        assert(pairs@[i].0@ == key@);
    }
    assert forall|j: int| 0 <= j < i implies (#[trigger] pairs@[j]).0@ != key@ by {
        assert(p[j].0 != key@);
    }
}

/// The place of the first pair with the id, or the number of pairs.
proof fn first_pair(p: Seq<(Seq<char>, Seq<char>)>, key: Seq<char>) -> (i: int)
    ensures
        0 <= i <= p.len(),
        forall|j: int| 0 <= j < i ==> (#[trigger] p[j]).0 != key,
        i < p.len() ==> p[i].0 == key && trust::seed_of(p, key) == Some(p[i].1),
        i == p.len() ==> trust::seed_of(p, key) is None,
    decreases p.len(),
{
    if p.len() == 0 {
        0
    } else if p[0].0 == key {
        0
    } else {
        let rest = p.drop_first();
        let k = first_pair(rest, key);
        assert forall|j: int| 0 <= j < k + 1 implies (#[trigger] p[j]).0 != key by {
            if j > 0 {
                assert(rest[j - 1] == p[j]);
            }
        }
        if k < rest.len() {
            assert(rest[k] == p[k + 1]);
        }
        k + 1
    }
}

/// The entry is for the key.
pub open spec fn entry_is_for(entry: Seq<char>, key: Seq<char>) -> bool {
    exists|seed: Seq<char>| #[trigger] entry_gives(entry, key, seed)
}

/// Entry `j` is the first that is for the key, and gives it the seed.
pub open spec fn gives_first(
    entries: Seq<String>,
    j: int,
    key: Seq<char>,
    seed: Seq<char>,
) -> bool {
    &&& 0 <= j < entries.len()
    &&& entry_gives(entries[j]@, key, seed)
    &&& forall|k: int| 0 <= k < j ==> !entry_is_for((#[trigger] entries[k])@, key)
}

/// The signature can be read, and begins with the 48 bytes of a tag over its
/// algorithm, a bar and the body, under the secret of a signer with the seed.
pub open spec fn tagged_under(s: ManifestSignature, body: Seq<u8>, seed: Seq<char>) -> bool {
    let secret = crypto::signing_secret(s.algorithm@, s.key_id@, text::utf8(seed));
    let x = text::utf8(s.algorithm@) + seq![124u8] + body;
    primitives::hex_bytes(s.signature_ref@) matches Some(b) && b.len() >= 48 && forall|i: int|
        0 <= i < 48 ==> b[i] == #[trigger] primitives::hmac_sha384(secret, x)[i]
}

/// The entries give the signature's key a seed under which it holds.
pub open spec fn trusted(s: ManifestSignature, entries: Seq<String>, body: Seq<u8>) -> bool {
    exists|j: int, seed: Seq<char>| #[trigger]
        gives_first(entries, j, s.key_id@, seed) && tagged_under(s, body, seed)
}

proof fn seed_is_first_given(entries: Seq<String>, key: Seq<char>) -> (i: int)
    requires
        trust::well_formed(entries),
    ensures
        0 <= i <= entries.len(),
        i < entries.len() ==> trust::seed_of(trust::pairs_of(entries), key) is Some && gives_first(
            entries,
            i,
            key,
            trust::seed_of(trust::pairs_of(entries), key)->0,
        ),
        i == entries.len() ==> trust::seed_of(trust::pairs_of(entries), key) is None
            && forall|k: int| 0 <= k < entries.len() ==> !entry_is_for((#[trigger] entries[k])@, key),
{
    let p = trust::pairs_of(entries);
    let i = first_pair(p, key);
    assert forall|k: int| 0 <= k < i implies !entry_is_for((#[trigger] entries[k])@, key) by {
        entry_splits(entries[k]@);
        assert(p[k] == trust::split_entry(entries[k]@)->0);
        if entry_is_for(entries[k]@, key) {
            let seed = choose|seed: Seq<char>| #[trigger] entry_gives(entries[k]@, key, seed);
            entry_splits_one_way(entries[k]@, key, seed, p[k].0, p[k].1);
        }
    }
    if i < p.len() {
        entry_splits(entries[i]@);
        assert(p[i] == trust::split_entry(entries[i]@)->0);
    }
    i
}

proof fn trusted_is_holding(s: ManifestSignature, entries: Seq<String>, body: Seq<u8>)
    requires
        trust::well_formed(entries),
        manifest::readable(s),
    ensures
        trust::holds_under(s, body, trust::pairs_of(entries)) == trusted(s, entries, body),
{
    let key = s.key_id@;
    let i = seed_is_first_given(entries, key);
    let b = primitives::hex_bytes(s.signature_ref@)->0;
    if i < entries.len() {
        let seed = trust::seed_of(trust::pairs_of(entries), key)->0;
        let tag = trust::expected_tag(s, seed, body);
        let secret = crypto::signing_secret(s.algorithm@, key, text::utf8(seed));
        let x = text::utf8(s.algorithm@) + seq![124u8] + body;
        if b.len() >= 48 && b.take(48) == tag {
            assert forall|k: int| 0 <= k < 48 implies b[k] == #[trigger] primitives::hmac_sha384(
                secret,
                x,
            )[k] by {
                assert(b.take(48)[k] == tag[k]);
            }
            assert(tagged_under(s, body, seed));
        }
        if trusted(s, entries, body) {
            let (j, other) = choose|j: int, seed: Seq<char>| #[trigger]
                gives_first(entries, j, key, seed) && tagged_under(s, body, seed);
            if i < j {
                assert(entry_is_for(entries[i]@, key));
            } else if j < i {
                assert(entry_is_for(entries[j]@, key));
            }
            entry_splits_one_way(entries[i]@, key, seed, key, other);
            assert(b.take(48) =~= tag) by {
                assert forall|k: int| 0 <= k < 48 implies b.take(48)[k] == tag[k] by {
                    assert(b[k] == primitives::hmac_sha384(secret, x)[k]);
                }
            }
        }
    } else if trusted(s, entries, body) {
        let (j, other) = choose|j: int, seed: Seq<char>| #[trigger]
            gives_first(entries, j, key, seed) && tagged_under(s, body, seed);
        assert(entry_is_for(entries[j]@, key));
    }
}

// ---------------------------------------------------------------- manifest

/// Every entry has an equals sign.
pub open spec fn all_entries_read(entries: Seq<String>) -> bool {
    forall|i: int| 0 <= i < entries.len() ==> (#[trigger] entries[i])@.contains('=')
}

/// The manifest has the known format, its signatures can be read, and one of them
/// is trusted and named as post-quantum.
pub open spec fn post_quantum_trusted(
    m: ManifestView,
    entries: Seq<String>,
    body: Seq<u8>,
) -> bool {
    &&& m.format@ == "qrsd-v1"@
    &&& forall|i: int|
        0 <= i < m.signatures.len() ==> primitives::hex_bytes(
            (#[trigger] m.signatures[i]).signature_ref@,
        ) is Some
    &&& exists|i: int|
        0 <= i < m.signatures.len() && qrse::laws::post_quantum_name(
            (#[trigger] m.signatures[i]).algorithm@,
        ) && trusted(m.signatures[i], entries, body)
}

proof fn entries_read(entries: Seq<String>)
    ensures
        trust::well_formed(entries) == all_entries_read(entries),
{
    assert forall|i: int| 0 <= i < entries.len() implies (trust::split_entry(
        (#[trigger] entries[i])@,
    ) is Some <==> entries[i]@.contains('=')) by {
        entry_splits(entries[i]@);
    }
    if trust::well_formed(entries) {
        assert forall|i: int| 0 <= i < entries.len() implies (
        #[trigger] entries[i])@.contains('=') by {
            assert(trust::split_entry(entries[i]@) is Some);
        }
    }
}

proof fn verified_is_post_quantum_trusted(
    m: ManifestView,
    refs: Seq<&DeterministicVerifier>,
    vs: Seq<DeterministicVerifier>,
    entries: Seq<String>,
)
    requires
        trust::refer_to(refs, vs),
        trust::built(vs, m.signatures, trust::pairs_of(entries)),
        trust::well_formed(entries),
    ensures
        m.verdict(refs) is Verified <==> post_quantum_trusted(m, entries, m.signed_bytes()),
{
    let s = m.signatures;
    let body = m.signed_bytes();
    if m.verdict(refs) is Verified {
        manifest::verified_only_with_pq_signature(m, refs);
        assert forall|i: int| 0 <= i < s.len() implies manifest::readable(#[trigger] s[i]) by {
            manifest::all_readable(s, i);
        }
        let i = choose|i: int|
            0 <= i < s.len() && manifest::valid_signature(#[trigger] s[i], body, refs)
                && manifest::pq_algorithm(s[i].algorithm@);
        trust::only_seeded_signatures_count(
            refs,
            vs,
            s,
            trust::pairs_of(entries),
            i,
            body,
        );
        trusted_is_holding(s[i], entries, body);
        qrse::laws::family_by_name(s[i].algorithm@);
    }
    if post_quantum_trusted(m, entries, body) {
        let i = choose|i: int|
            0 <= i < s.len() && qrse::laws::post_quantum_name((#[trigger] s[i]).algorithm@)
                && trusted(s[i], entries, body);
        assert forall|k: int| !manifest::first_unreadable(s, k) by {}
        trusted_is_holding(s[i], entries, body);
        qrse::laws::family_by_name(s[i].algorithm@);
        trust::only_seeded_signatures_count(
            refs,
            vs,
            s,
            trust::pairs_of(entries),
            i,
            body,
        );
        manifest::pq_purpose_of_index(s, body, refs, i);
    }
}

/// A manifest is verified exactly where the entries can be read, it has the known
/// format, its signatures can be read, and one of them is post-quantum by name and
/// holds under the seed that the first entry for its key gives. Entries that cannot
/// be read fail with code 1, anything else with code 2.
pub proof fn only_trusted_post_quantum_manifests_verify(
    m: &QrsdManifest,
    entries: &[String],
    r: Result<String, CliError>,
    body: Vec<u8>,
)
    requires
        call_ensures(commands::manifest_verify, (m, entries), r),
        call_ensures(QrsdManifest::signing_bytes, (m,), body),
    ensures
        r is Ok <==> all_entries_read(entries@) && post_quantum_trusted(m@, entries@, body@),
        r matches Err(e) ==> e.code == if all_entries_read(entries@) {
            2
        } else {
            1int
        },
{
    entries_read(entries@);
    if trust::well_formed(entries@) {
        let pairs = trust::pairs_of(entries@);
        let (refs, vs) = choose|
            refs: Seq<&DeterministicVerifier>,
            vs: Seq<DeterministicVerifier>,
        |
            {
                &&& #[trigger] trust::refer_to(refs, vs)
                &&& trust::built(vs, m@.signatures, pairs)
                &&& commands::verification_shown(m@, refs, pairs, r)
            };
        verified_is_post_quantum_trusted(m@, refs, vs, entries@);
    }
}

/// The downgrade check passes exactly where the manifest verifies, its version is
/// below neither bound and, unless that is tolerated, it has its post-quantum path.
/// A downgrade fails with code 3, a manifest that does not verify with code 2, and
/// entries that cannot be read with code 1.
pub proof fn only_verified_and_current_manifests_pass(
    m: &QrsdManifest,
    floor: u64,
    counter: u64,
    allow: bool,
    entries: &[String],
    r: Result<String, CliError>,
    body: Vec<u8>,
)
    requires
        call_ensures(commands::downgrade_check, (m, floor, counter, allow, entries), r),
        call_ensures(QrsdManifest::signing_bytes, (m,), body),
    ensures
        r is Ok <==> {
            &&& all_entries_read(entries@)
            &&& post_quantum_trusted(m@, entries@, body@)
            &&& floor <= m.boot_policy.minimum_boot_manifest_version
            &&& counter <= m.boot_policy.minimum_boot_manifest_version
            &&& allow || {
                &&& exists|i: int|
                    0 <= i < m@.keyslots.len() && qrse::laws::whole_hybrid(
                        #[trigger] m@.keyslots[i],
                    )
                &&& forall|i: int|
                    0 <= i < m@.keyslots.len() ==> !qrse::laws::gutted_hybrid(
                        #[trigger] m@.keyslots[i],
                    )
            }
        },
        r matches Err(e) ==> e.code == if !all_entries_read(entries@) {
            1int
        } else if !post_quantum_trusted(m@, entries@, body@) {
            2
        } else {
            3
        },
{
    entries_read(entries@);
    if trust::well_formed(entries@) {
        let pairs = trust::pairs_of(entries@);
        let (refs, vs) = choose|
            refs: Seq<&DeterministicVerifier>,
            vs: Seq<DeterministicVerifier>,
        |
            {
                &&& #[trigger] trust::refer_to(refs, vs)
                &&& trust::built(vs, m@.signatures, pairs)
                &&& commands::downgrade_shown(m@, refs, floor, counter, allow, r)
            };
        verified_is_post_quantum_trusted(m@, refs, vs, entries@);
        qrse::laws::accepted_is_not_downgraded(
            m@,
            commands::operator_floor(floor, allow),
            counter,
        );
    }
}

/// A seeded signature gets a verifier with its algorithm, its key id and the secret
/// of a signer that is made of them and the seed.
pub proof fn seeded_signature_gets_its_verifier<'a>(
    m: &QrsdManifest,
    pairs: &'a Vec<(String, String)>,
    vs: Vec<DeterministicVerifier>,
    i: int,
    alg: &str,
    key: &str,
    seed: Option<&'a str>,
    bytes: &[u8],
    size: usize,
    signer: DeterministicSigner,
)
    requires
        call_ensures(trust::build_verifiers, (m, pairs), vs),
        0 <= i < m.signatures@.len(),
        alg@ == m.signatures@[i].algorithm@,
        key@ == m.signatures@[i].key_id@,
        call_ensures(trust::find_seed, (pairs, key), seed),
        seed is Some,
        bytes@ == text::utf8(seed->0@),
        call_ensures(DeterministicSigner::new, (alg, key, bytes, size), signer),
    ensures
        exists|j: int|
            0 <= j < vs@.len() && (#[trigger] vs@[j]).alg() == alg@ && vs@[j].key() == key@
                && vs@[j].secret_key() == signer.secret_key(),
{
    let j = trust::seeded_signature_has_verifier(vs@, m@.signatures, trust::pairs_view(pairs@), i);
    assert(vs@[j].alg() == alg@);
}

// --------------------------------------------------------------- documents

/// What is shown of a manifest is what it says, and whether some signature is named
/// as post-quantum.
pub proof fn inspection_shows_the_manifest(m: &QrsdManifest, r: String, v: JsonValue)
    requires
        call_ensures(commands::manifest_inspect, (m,), r),
        r@ == json::pretty(v, Seq::empty()),
    ensures
        json::laws::has_member(v, "volume_id"@, JsonValue::Text(m.volume_id@)),
        json::laws::has_member(v, "format"@, JsonValue::Text(m.format@)),
        json::laws::has_member(v, "created_at"@, JsonValue::Text(m.created_at@)),
        json::laws::has_member(
            v,
            "carries_pq_signature"@,
            JsonValue::Bool(
                exists|i: int|
                    0 <= i < m.signatures@.len() && qrse::laws::post_quantum_name(
                        (#[trigger] m.signatures@[i]).algorithm@,
                    ),
            ),
        ),
{
    json::indented::pretty_is_injective(v, commands::inspect_view(m@));
    let o = v->Object_0;
    assert(o[1].0 == "carries_pq_signature"@ && o[2].0 == "created_at"@);
    assert(o[4].0 == "format"@ && o[7].0 == "volume_id"@);
    let s = m.signatures@;
    assert forall|i: int| 0 <= i < s.len() implies manifest::pq_algorithm(
        (#[trigger] s[i]).algorithm@,
    ) == qrse::laws::post_quantum_name(s[i].algorithm@) by {
        qrse::laws::family_by_name(s[i].algorithm@);
    }
}

/// What is shown of the boot policy, the data plane and the keys is what the
/// manifest says.
pub proof fn inspection_shows_policy_and_keys(m: &QrsdManifest, r: String, v: JsonValue)
    requires
        call_ensures(commands::manifest_inspect, (m,), r),
        r@ == json::pretty(v, Seq::empty()),
    ensures
        exists|b: JsonValue|
            {
                let p = m.boot_policy;
                &&& #[trigger] json::laws::has_member(v, "boot_policy"@, b)
                &&& json::laws::has_member(b, "policy_id"@, JsonValue::Text(p.policy_id@))
                &&& json::laws::has_member(
                    b,
                    "minimum_boot_manifest_version"@,
                    JsonValue::Num(p.minimum_boot_manifest_version as nat),
                )
                &&& json::laws::has_member(
                    b,
                    "measured_boot_required"@,
                    JsonValue::Bool(p.measured_boot_required),
                )
                &&& json::laws::has_member(b, "secure_boot_required"@, JsonValue::Bool(p.secure_boot_required))
            },
        exists|d: JsonValue|
            {
                let p = m.data_plane;
                &&& #[trigger] json::laws::has_member(v, "data_plane"@, d)
                &&& json::laws::has_member(d, "cipher"@, JsonValue::Text(p.cipher@))
                &&& json::laws::has_member(d, "integrity_mode"@, JsonValue::Text(p.integrity.mode@))
                &&& json::laws::has_member(d, "sector_size"@, JsonValue::Num(p.sector_size as nat))
                &&& json::laws::has_member(d, "xts_raw_key_bits"@, JsonValue::Num(p.xts_raw_key_bits as nat))
            },
        exists|k: JsonValue|
            {
                let h = m.key_hierarchy;
                &&& #[trigger] json::laws::has_member(v, "key_hierarchy"@, k)
                &&& json::laws::has_member(k, "active_dek_version"@, JsonValue::Num(h.active_dek_version as nat))
                &&& json::laws::has_member(
                    k,
                    "volume_master_key_version"@,
                    JsonValue::Num(h.volume_master_key_version as nat),
                )
            },
{
    json::indented::pretty_is_injective(v, commands::inspect_view(m@));
    let o = v->Object_0;
    let (b, d, k) = (o[0].1, o[3].1, o[5].1);
    assert(json::laws::has_member(v, "boot_policy"@, b)) by {
        assert(o[0] == ("boot_policy"@, b));
    }
    assert(json::laws::has_member(v, "data_plane"@, d)) by {
        assert(o[3] == ("data_plane"@, d));
    }
    assert(json::laws::has_member(v, "key_hierarchy"@, k)) by {
        assert(o[5] == ("key_hierarchy"@, k));
    }
    let (x, y, z) = (b->Object_0, d->Object_0, k->Object_0);
    assert(x[0].0 == "measured_boot_required"@ && x[1].0 == "minimum_boot_manifest_version"@);
    assert(x[3].0 == "policy_id"@ && x[4].0 == "secure_boot_required"@);
    assert(y[0].0 == "cipher"@ && y[1].0 == "integrity_mode"@);
    assert(y[2].0 == "sector_size"@ && y[3].0 == "xts_raw_key_bits"@);
    assert(z[0].0 == "active_dek_version"@ && z[2].0 == "volume_master_key_version"@);
}

/// The document of a downgrade check shows what was asked and whether it passed.
pub proof fn downgrade_document_shows_the_outcome(
    m: &QrsdManifest,
    floor: u64,
    counter: u64,
    allow: bool,
    entries: &[String],
    r: Result<String, CliError>,
    v: JsonValue,
)
    requires
        call_ensures(commands::downgrade_check, (m, floor, counter, allow, entries), r),
        all_entries_read(entries@),
        r is Err ==> r->Err_0.code == 3,
        (if r is Ok {
            r->Ok_0@
        } else {
            r->Err_0.message@
        }) == json::pretty(v, Seq::empty()),
    ensures
        json::laws::has_member(v, "ok"@, JsonValue::Bool(r is Ok)),
        json::laws::has_member(v, "tenant_floor"@, JsonValue::Num(floor as nat)),
        json::laws::has_member(v, "monotonic_counter"@, JsonValue::Num(counter as nat)),
        json::laws::has_member(v, "allow_classical_only"@, JsonValue::Bool(allow)),
        json::laws::has_member(v, "volume_id"@, JsonValue::Text(m.volume_id@)),
{
    entries_read(entries@);
    let pairs = trust::pairs_of(entries@);
    let (refs, vs) = choose|refs: Seq<&DeterministicVerifier>, vs: Seq<DeterministicVerifier>|
        {
            &&& #[trigger] trust::refer_to(refs, vs)
            &&& trust::built(vs, m@.signatures, pairs)
            &&& commands::downgrade_shown(m@, refs, floor, counter, allow, r)
        };
    let verdict = downgrade::downgrade_of(m@, commands::operator_floor(floor, allow), counter);
    json::indented::pretty_is_injective(
        v,
        commands::downgrade_view(m@, floor, counter, allow, verdict),
    );
    let o = v->Object_0;
    assert(o[0].0 == "allow_classical_only"@ && o[1].0 == "monotonic_counter"@);
    assert(o[2].0 == "ok"@ && o[4].0 == "tenant_floor"@ && o[5].0 == "volume_id"@);
}

/// A manifest that does not verify is answered with a denial, before anything else
/// is asked of it.
pub proof fn unverified_manifest_is_denied_first(
    m: &QrsdManifest,
    floor: u64,
    counter: u64,
    allow: bool,
    entries: &[String],
    e: CliError,
    v: JsonValue,
)
    requires
        call_ensures(
            commands::downgrade_check,
            (m, floor, counter, allow, entries),
            Err::<String, CliError>(e),
        ),
        e.code == 2,
        e.message@ == json::pretty(v, Seq::empty()),
    ensures
        json::laws::has_member(v, "denied"@, JsonValue::Bool(true)),
        json::laws::has_member(v, "result"@, JsonValue::Text("verify_denied"@)),
{
    let pairs = trust::pairs_of(entries@);
    let r = Err::<String, CliError>(e);
    let (refs, vs) = choose|refs: Seq<&DeterministicVerifier>, vs: Seq<DeterministicVerifier>|
        {
            &&& #[trigger] trust::refer_to(refs, vs)
            &&& trust::built(vs, m@.signatures, pairs)
            &&& commands::downgrade_shown(m@, refs, floor, counter, allow, r)
        };
    let why = choose|why: manifest::ManifestError| #[trigger]
        m@.explains(m@.verdict(refs), why) && e.message@ == json::pretty(
            commands::verify_denied_view(why.text()),
            Seq::empty(),
        );
    json::indented::pretty_is_injective(v, commands::verify_denied_view(why.text()));
    let o = v->Object_0;
    assert(o[0].0 == "denied"@ && o[2].0 == "result"@);
}

/// The summary of a slot shows its number, its state, its mechanism, and whether it
/// has a post-quantum leg.
pub proof fn summary_shows_the_slot(
    k: &Keyslot,
    r: Json,
    classical_only: bool,
    hybrid: bool,
    kind: &'static str,
    status: &'static str,
)
    requires
        call_ensures(commands::keyslot_summary, (k,), r),
        call_ensures(Keyslot::classical_only, (k,), classical_only),
        call_ensures(Keyslot::is_hybrid, (k,), hybrid),
        call_ensures(keyslot_kind_label, (&k.kind,), kind),
        call_ensures(KeyslotStatus::as_str, (k.status,), status),
    ensures
        json::laws::has_member(r@, "slot"@, JsonValue::Num(k.slot as nat)),
        json::laws::has_member(r@, "status"@, JsonValue::Text(status@)),
        json::laws::has_member(r@, "kind"@, JsonValue::Text(kind@)),
        json::laws::has_member(r@, "classical_only"@, JsonValue::Bool(classical_only)),
        json::laws::has_member(r@, "is_hybrid"@, JsonValue::Bool(hybrid)),
{
    let o = r@->Object_0;
    let n = o.len() as int;
    assert(o[0].0 == "classical_only"@ && o[1].0 == "is_hybrid"@);
    assert(o[n - 1].0 == "status"@ && o[n - 2].0 == "slot"@ && o[n - 3].0 == "kind"@);
}

/// A verified manifest's document names its volume and version and, signature by
/// signature, whether an entry is for its key and whether it is post-quantum by
/// name.
pub proof fn verification_document_shows_the_signatures(
    m: &QrsdManifest,
    entries: &[String],
    r: Result<String, CliError>,
    v: JsonValue,
    i: int,
)
    requires
        call_ensures(commands::manifest_verify, (m, entries), r),
        all_entries_read(entries@),
        (if r is Ok {
            r->Ok_0@
        } else {
            r->Err_0.message@
        }) == json::pretty(v, Seq::empty()),
        0 <= i < m.signatures@.len(),
    ensures
        json::laws::has_member(v, "volume_id"@, JsonValue::Text(m.volume_id@)),
        json::laws::has_member(v, "result"@, JsonValue::Text("pq_verified"@)) <== r is Ok,
        json::laws::has_member(v, "denied"@, JsonValue::Bool(true)) <== r is Err,
        r is Ok ==> json::laws::has_member(
            v,
            "min_boot_manifest_version"@,
            JsonValue::Num(m.boot_policy.minimum_boot_manifest_version as nat),
        ),
        exists|l: JsonValue|
            {
                let s = m.signatures@[i];
                &&& #[trigger] json::laws::has_member(v, "signatures"@, l)
                &&& l is List && l->List_0.len() == m.signatures@.len()
                &&& json::laws::has_member(l->List_0[i], "algorithm"@, JsonValue::Text(s.algorithm@))
                &&& json::laws::has_member(l->List_0[i], "key_id"@, JsonValue::Text(s.key_id@))
                &&& json::laws::has_member(l->List_0[i], "purpose"@, JsonValue::Text(s.purpose@))
                &&& json::laws::has_member(
                    l->List_0[i],
                    "post_quantum"@,
                    JsonValue::Bool(qrse::laws::post_quantum_name(s.algorithm@)),
                )
                &&& json::laws::has_member(
                    l->List_0[i],
                    "have_trust"@,
                    JsonValue::Bool(
                        exists|j: int|
                            0 <= j < entries@.len() && entry_is_for(
                                (#[trigger] entries@[j])@,
                                s.key_id@,
                            ),
                    ),
                )
            },
{
    entries_read(entries@);
    let pairs = trust::pairs_of(entries@);
    let (refs, vs) = choose|refs: Seq<&DeterministicVerifier>, vs: Seq<DeterministicVerifier>|
        {
            &&& #[trigger] trust::refer_to(refs, vs)
            &&& trust::built(vs, m@.signatures, pairs)
            &&& commands::verification_shown(m@, refs, pairs, r)
        };
    let s = m.signatures@[i];
    let shown = shown_of(m@, refs, pairs, r, v);
    let l = commands::checked_signatures(m@.signatures, pairs);
    let o = v->Object_0;
    assert(o[3].0 == "signatures"@ && o[3].1 == l || o[2].0 == "signatures"@ && o[2].1 == l);
    assert(json::laws::has_member(v, "signatures"@, l));
    assert(l->List_0[i] == commands::checked_signature(s, pairs));
    let e = l->List_0[i]->Object_0;
    assert(e[0].0 == "algorithm"@ && e[1].0 == "have_trust"@ && e[2].0 == "key_id"@);
    assert(e[3].0 == "post_quantum"@ && e[4].0 == "purpose"@);
    qrse::laws::family_by_name(s.algorithm@);
    let j = seed_is_first_given(entries@, s.key_id@);
    if j < entries@.len() {
        assert(entry_is_for(entries@[j]@, s.key_id@));
    }
    assert(o[4] == ("volume_id"@, JsonValue::Text(m.volume_id@)));
    if r is Ok {
        assert(o[0].0 == "min_boot_manifest_version"@ && o[1].0 == "result"@);
    } else {
        assert(o[0] == ("denied"@, JsonValue::Bool(true)));
    }
}

/// The document of a verification, taken apart.
proof fn shown_of(
    m: ManifestView,
    refs: Seq<&DeterministicVerifier>,
    pairs: Seq<(Seq<char>, Seq<char>)>,
    r: Result<String, CliError>,
    v: JsonValue,
) -> (shown: JsonValue)
    requires
        commands::verification_shown(m, refs, pairs, r),
        (if r is Ok {
            r->Ok_0@
        } else {
            r->Err_0.message@
        }) == json::pretty(v, Seq::empty()),
    ensures
        v == shown,
        r is Ok ==> exists|p: Seq<Seq<char>>| shown == #[trigger] commands::verified_view(m, p, pairs),
        r is Err ==> exists|a: Seq<char>, b: Seq<char>|
            shown == #[trigger] commands::denied_view(m, a, b, pairs),
{
    match m.verdict(refs) {
        manifest::ManifestVerdict::Verified(p) => {
            json::indented::pretty_is_injective(v, commands::verified_view(m, p, pairs));
        },
        manifest::ManifestVerdict::ClassicalOnly => {
            json::indented::pretty_is_injective(
                v,
                commands::denied_view(
                    m,
                    "transition_classical_only"@,
                    commands::classical_only_reason(),
                    pairs,
                ),
            );
        },
        verdict => {
            let e = r->Err_0;
            let why = choose|why: manifest::ManifestError| #[trigger]
                m.explains(verdict, why) && e.message@ == json::pretty(
                    commands::denied_view(m, "denied"@, why.text(), pairs),
                    Seq::empty(),
                );
            json::indented::pretty_is_injective(
                v,
                commands::denied_view(m, "denied"@, why.text(), pairs),
            );
        },
    }
    v
}

} // verus!
