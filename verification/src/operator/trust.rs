//! Trust material from the command line.
use vstd::prelude::*;

use crate::json;
use crate::lines;
use crate::primitives;
use crate::qrse::crypto;
use crate::qrse::crypto::{DeterministicSigner, DeterministicVerifier, Verifier};
use crate::qrse::manifest;
use crate::qrse::manifest::{ManifestSignature, QrsdManifest};
use crate::text;

verus! {

/// A failure of a command: what is shown, and the exit code.
#[derive(Debug, PartialEq, Eq)]
pub struct CliError {
    /// Exit code of the process.
    pub code: i32,
    /// What is shown.
    pub message: String,
}

impl CliError {
    /// A usage error.
    pub fn usage(message: String) -> (r: Self)
        ensures
            r.code == 1,
            r.message == message,
    {
        CliError { code: 1, message }
    }
}

/// The hexadecimal digit for `d < 16`.
fn hex_char(d: u8) -> (r: char)
    requires
        d < 16,
    ensures
        r == json::hex_digit(d as nat),
{
    if d < 10 {
        (48 + d) as char
    } else {
        (87 + d) as char
    }
}

/// Lower-case hexadecimal.
pub fn to_hex(bytes: &[u8]) -> (r: String)
    ensures
        r@ == primitives::hex_text(bytes@),
{
    let mut s = String::new();
    let mut i: usize = 0;
    assert(s@ =~= primitives::hex_text(bytes@.take(0)));
    while i < bytes.len()
        invariant
            i <= bytes@.len(),
            s@ == primitives::hex_text(bytes@.take(i as int)),
        decreases bytes@.len() - i,
    {
        s.push(hex_char(bytes[i] / 16));
        s.push(hex_char(bytes[i] % 16));
        assert(s@ =~= primitives::hex_text(bytes@.take(i + 1)));
        i = i + 1;
    }
    assert(bytes@.take(i as int) =~= bytes@);
    s
}

/// The first equals sign of an entry is at `i`.
pub open spec fn first_equals(s: Seq<char>, i: int) -> bool {
    0 <= i < s.len() && s[i] == '=' && forall|j: int| 0 <= j < i ==> #[trigger] s[j] != '='
}

/// An entry `key_id=seed`, split at its first equals sign.
pub open spec fn split_entry(s: Seq<char>) -> Option<(Seq<char>, Seq<char>)> {
    if exists|i: int| first_equals(s, i) {
        let i = choose|i: int| first_equals(s, i);
        Some((s.take(i), s.skip(i + 1)))
    } else {
        None
    }
}

/// The key ids and seeds of a list of pairs.
pub open spec fn pairs_view(v: Seq<(String, String)>) -> Seq<(Seq<char>, Seq<char>)> {
    v.map_values(|e: (String, String)| (e.0@, e.1@))
}

/// Splits an entry at its first equals sign.
fn split_once(s: &str) -> (r: Option<(String, String)>)
    ensures
        match r {
            Some(p) => split_entry(s@) == Some((p.0@, p.1@)),
            None => split_entry(s@) is None,
        },
{
    let v = lines::chars_of(s);
    let mut i: usize = 0;
    while i < v.len()
        invariant
            i <= v@.len(),
            v@ == s@,
            forall|j: int| 0 <= j < i ==> #[trigger] s@[j] != '=',
        decreases v@.len() - i,
    {
        if v[i] == '=' {
            proof {
                assert(first_equals(s@, i as int));
                let c = choose|c: int| first_equals(s@, c);
                assert(first_equals(s@, c));
                assert(c == i) by {
                    if c < i {
                        assert(s@[c] != '=');
                    } else if i < c {
                        assert(s@[i as int] != '=');
                    }
                }
            }
            let k = lines::text_between(&v, 0, i);
            let seed = lines::text_between(&v, i + 1, v.len());
            assert(k@ =~= s@.take(i as int));
            assert(seed@ =~= s@.skip(i + 1));
            return Some((k, seed));
        }
        i = i + 1;
    }
    None
}

/// What is shown of an entry that has no equals sign.
pub open spec fn malformed_text(entry: Seq<char>) -> Seq<char> {
    "malformed --trust `"@ + entry + "` (expected key_id=seed)"@
}

/// Entry number `i` is the first without an equals sign.
pub open spec fn first_malformed(entries: Seq<String>, i: int) -> bool {
    &&& 0 <= i < entries.len()
    &&& split_entry(entries[i]@) is None
    &&& forall|j: int| 0 <= j < i ==> split_entry(#[trigger] entries[j]@) is Some
}

/// Every entry can be split.
pub open spec fn well_formed(entries: Seq<String>) -> bool {
    forall|i: int| 0 <= i < entries.len() ==> split_entry(#[trigger] entries[i]@) is Some
}

/// The key ids and seeds of well-formed entries.
pub open spec fn pairs_of(entries: Seq<String>) -> Seq<(Seq<char>, Seq<char>)> {
    entries.map_values(|e: String| split_entry(e@)->0)
}

/// `e` reports the first entry that cannot be split, as a usage error.
pub open spec fn reports_malformed(entries: Seq<String>, e: CliError) -> bool {
    e.code == 1 && exists|i: int| #[trigger]
        first_malformed(entries, i) && e.message@ == malformed_text(entries[i]@)
}

/// Read the `--trust key_id=seed` entries.
pub fn parse_trust(entries: &[String]) -> (r: Result<Vec<(String, String)>, CliError>)
    ensures
        match r {
            Ok(pairs) => well_formed(entries@) && pairs_view(pairs@) == pairs_of(entries@),
            Err(e) => !well_formed(entries@) && reports_malformed(entries@, e),
        },
{
    let mut out: Vec<(String, String)> = Vec::new();
    let mut i: usize = 0;
    while i < entries.len()
        invariant
            i <= entries@.len(),
            out@.len() == i,
            forall|j: int|
                0 <= j < i ==> split_entry(#[trigger] entries@[j]@) == Some(pairs_view(out@)[j]),
        decreases entries@.len() - i,
    {
        match split_once(entries[i].as_str()) {
            Some(p) => {
                let ghost before = out@;
                out.push(p);
                assert(pairs_view(out@) =~= pairs_view(before).push((p.0@, p.1@)));
            },
            None => {
                assert(first_malformed(entries@, i as int));
                assert(split_entry(entries@[i as int]@) is None);
                let mut m = "malformed --trust `".to_string();
                m.append(entries[i].as_str());
                m.append("` (expected key_id=seed)");
                return Err(CliError::usage(m));
            },
        }
        i = i + 1;
    }
    assert(pairs_view(out@) =~= pairs_of(entries@)) by {
        assert forall|j: int| 0 <= j < entries@.len() implies pairs_view(out@)[j] == pairs_of(
            entries@,
        )[j] by {
            assert(split_entry(entries@[j]@) == Some(pairs_view(out@)[j]));
        }
    }
    Ok(out)
}

/// The seed of a key: that of the first pair with its id.
pub open spec fn seed_of(trust: Seq<(Seq<char>, Seq<char>)>, key_id: Seq<char>) -> Option<Seq<char>>
    decreases trust.len(),
{
    if trust.len() == 0 {
        None
    } else if trust[0].0 == key_id {
        Some(trust[0].1)
    } else {
        seed_of(trust.drop_first(), key_id)
    }
}

/// The seed of a key.
pub fn find_seed<'a>(trust: &'a Vec<(String, String)>, key_id: &str) -> (r: Option<&'a str>)
    ensures
        match r {
            Some(s) => seed_of(pairs_view(trust@), key_id@) == Some(s@),
            None => seed_of(pairs_view(trust@), key_id@) is None,
        },
{
    let ghost pairs = pairs_view(trust@);
    let mut i: usize = 0;
    assert(pairs.skip(0) =~= pairs);
    while i < trust.len()
        invariant
            i <= trust@.len(),
            pairs == pairs_view(trust@),
            seed_of(pairs, key_id@) == seed_of(pairs.skip(i as int), key_id@),
        decreases trust@.len() - i,
    {
        assert(pairs.skip(i as int)[0] == pairs[i as int]);
        if text::same(trust[i].0.as_str(), key_id) {
            return Some(trust[i].1.as_str());
        }
        assert(pairs.skip(i as int).drop_first() =~= pairs.skip(i + 1));
        i = i + 1;
    }
    None
}

/// `v` checks signatures of the algorithm and key of `s`, made with `seed`.
pub open spec fn checks(v: DeterministicVerifier, s: ManifestSignature, seed: Seq<char>) -> bool {
    &&& v.alg() == s.algorithm@
    &&& v.key() == s.key_id@
    &&& v.secret_key() == crypto::signing_secret(s.algorithm@, s.key_id@, text::utf8(seed))
}

/// One verifier for each signature whose key has a seed, in order.
pub open spec fn built(
    vs: Seq<DeterministicVerifier>,
    sigs: Seq<ManifestSignature>,
    trust: Seq<(Seq<char>, Seq<char>)>,
) -> bool
    decreases sigs.len(),
{
    if sigs.len() == 0 {
        vs.len() == 0
    } else {
        match seed_of(trust, sigs.last().key_id@) {
            None => built(vs, sigs.drop_last(), trust),
            Some(seed) => vs.len() > 0 && checks(vs.last(), sigs.last(), seed) && built(
                vs.drop_last(),
                sigs.drop_last(),
                trust,
            ),
        }
    }
}

/// The verifiers for the signatures of a manifest, made from the trust seeds. A
/// signature whose key has no seed gets none.
pub fn build_verifiers(m: &QrsdManifest, trust: &Vec<(String, String)>) -> (r: Vec<
    DeterministicVerifier,
>)
    ensures
        built(r@, m@.signatures, pairs_view(trust@)),
{
    let ghost sigs = m.signatures@;
    let mut out: Vec<DeterministicVerifier> = Vec::new();
    let mut i: usize = 0;
    while i < m.signatures.len()
        invariant
            i <= m.signatures@.len(),
            sigs == m.signatures@,
            built(out@, sigs.take(i as int), pairs_view(trust@)),
        decreases m.signatures@.len() - i,
    {
        let s = &m.signatures[i];
        assert(sigs.take(i + 1).drop_last() =~= sigs.take(i as int));
        assert(sigs.take(i + 1).last() == *s);
        if let Some(seed) = find_seed(trust, s.key_id.as_str()) {
            let ghost before = out@;
            let signer = DeterministicSigner::new(
                s.algorithm.as_str(),
                s.key_id.as_str(),
                seed.as_bytes(),
                1,
            );
            out.push(signer.to_verifier());
            assert(out@.drop_last() =~= before);
        }
        i = i + 1;
    }
    assert(sigs.take(i as int) =~= sigs);
    out
}

/// The tag that a signature over `body` has to begin with, under `seed`.
pub open spec fn expected_tag(s: ManifestSignature, seed: Seq<char>, body: Seq<u8>) -> Seq<u8> {
    crypto::mac_spec(
        crypto::signing_secret(s.algorithm@, s.key_id@, text::utf8(seed)),
        s.algorithm@,
        body,
    )
}

/// The signature holds under the trust seeds: its key has a seed, and its bytes
/// begin with the tag that the seed gives.
pub open spec fn holds_under(
    s: ManifestSignature,
    body: Seq<u8>,
    trust: Seq<(Seq<char>, Seq<char>)>,
) -> bool {
    match seed_of(trust, s.key_id@) {
        None => false,
        Some(seed) => {
            let bytes = primitives::hex_bytes(s.signature_ref@)->0;
            bytes.len() >= 48 && bytes.take(48) == expected_tag(s, seed, body)
        },
    }
}

/// The references are to these verifiers, in order.
pub open spec fn refer_to(
    refs: Seq<&DeterministicVerifier>,
    vs: Seq<DeterministicVerifier>,
) -> bool {
    refs.len() == vs.len() && forall|k: int| 0 <= k < vs.len() ==> *(#[trigger] refs[k]) == vs[k]
}

/// The verifiers as references.
pub fn refs_of(vs: &Vec<DeterministicVerifier>) -> (r: Vec<&DeterministicVerifier>)
    ensures
        refer_to(r@, vs@),
{
    let mut out: Vec<&DeterministicVerifier> = Vec::new();
    let mut i: usize = 0;
    while i < vs.len()
        invariant
            i <= vs@.len(),
            out@.len() == i,
            forall|k: int| 0 <= k < i ==> *(#[trigger] out@[k]) == vs@[k],
        decreases vs@.len() - i,
    {
        out.push(&vs[i]);
        i = i + 1;
    }
    out
}

proof fn built_for_some_signature(
    vs: Seq<DeterministicVerifier>,
    sigs: Seq<ManifestSignature>,
    trust: Seq<(Seq<char>, Seq<char>)>,
    j: int,
) -> (k: int)
    requires
        built(vs, sigs, trust),
        0 <= j < vs.len(),
    ensures
        0 <= k < sigs.len(),
        seed_of(trust, sigs[k].key_id@) is Some,
        checks(vs[j], sigs[k], seed_of(trust, sigs[k].key_id@)->0),
    decreases sigs.len(),
{
    match seed_of(trust, sigs.last().key_id@) {
        None => built_for_some_signature(vs, sigs.drop_last(), trust, j),
        Some(_) => if j == vs.len() - 1 {
            sigs.len() - 1
        } else {
            assert(vs.drop_last()[j] == vs[j]);
            built_for_some_signature(vs.drop_last(), sigs.drop_last(), trust, j)
        },
    }
}

/// A signature whose key has a seed has a verifier.
pub proof fn seeded_signature_has_verifier(
    vs: Seq<DeterministicVerifier>,
    sigs: Seq<ManifestSignature>,
    trust: Seq<(Seq<char>, Seq<char>)>,
    i: int,
) -> (j: int)
    requires
        built(vs, sigs, trust),
        0 <= i < sigs.len(),
        seed_of(trust, sigs[i].key_id@) is Some,
    ensures
        0 <= j < vs.len(),
        checks(vs[j], sigs[i], seed_of(trust, sigs[i].key_id@)->0),
    decreases sigs.len(),
{
    if i == sigs.len() - 1 {
        vs.len() - 1
    } else {
        assert(sigs.drop_last()[i] == sigs[i]);
        match seed_of(trust, sigs.last().key_id@) {
            None => seeded_signature_has_verifier(vs, sigs.drop_last(), trust, i),
            Some(_) => {
                let j = seeded_signature_has_verifier(
                    vs.drop_last(),
                    sigs.drop_last(),
                    trust,
                    i,
                );
                assert(vs.drop_last()[j] == vs[j]);
                j
            },
        }
    }
}

/// A signature of a manifest is valid for the operator exactly when its key has
/// a seed on the command line and its bytes begin with the tag of that seed:
/// without trust material nothing is valid.
pub proof fn only_seeded_signatures_count(
    refs: Seq<&DeterministicVerifier>,
    vs: Seq<DeterministicVerifier>,
    sigs: Seq<ManifestSignature>,
    trust: Seq<(Seq<char>, Seq<char>)>,
    i: int,
    body: Seq<u8>,
)
    requires
        refer_to(refs, vs),
        built(vs, sigs, trust),
        0 <= i < sigs.len(),
    ensures
        manifest::valid_signature(sigs[i], body, refs) <==> holds_under(
            sigs[i],
            body,
            trust,
        ),
{
    let s = sigs[i];
    if manifest::valid_signature(s, body, refs) {
        let j = choose|j: int|
            0 <= j < refs.len() && #[trigger] manifest::taken_by(refs, j, s, body);
        let k = built_for_some_signature(vs, sigs, trust, j);
        assert(*refs[j] == vs[j]);
        assert(sigs[k].key_id@ == s.key_id@);
    }
    if holds_under(s, body, trust) {
        let j = seeded_signature_has_verifier(vs, sigs, trust, i);
        assert(*refs[j] == vs[j]);
        assert(manifest::taken_by(refs, j, s, body));
    }
}

} // verus!
