//! What the storage control plane is for, stated over its calls.
use vstd::prelude::*;

use crate::attest;
use crate::attest::kms::{KeyReleaseRequest, KmsSimulator};
use crate::json;
use crate::primitives;
use crate::qrse::combiner;
use crate::qrse::combiner::{hybrid_combine, CombinerContext, Kek, KemSuite};
use crate::qrse::crypto;
use crate::qrse::crypto::{
    CryptoError, DecapKey, DeterministicKem, DeterministicSigner, DeterministicVerifier, EncapKey,
    Kem, KemCiphertext, SharedSecret, Signature, Signer, Verifier,
};
use crate::qrse::downgrade;
use crate::qrse::downgrade::{DowngradeVerdict, DowngradeVerdictView, VersionFloor};
use crate::qrse::hierarchy;
use crate::qrse::hierarchy::{KeyClass, KeyHierarchy, KeyHierarchyBuilder, RotationCadence};
use crate::qrse::keyslot;
use crate::qrse::keyslot::{Keyslot, KeyslotKind, KeyslotStatus, KeyslotView};
use crate::qrse::manifest;
use crate::qrse::manifest::{
    ManifestError, ManifestSignature, ManifestView, QrsdManifest, VerifiedManifest,
};
use crate::qrse::unlock;
use crate::qrse::unlock::{attested_hybrid_unlock, KemLeg, UnlockError, UnlockRequest};
use crate::receipts;
use crate::receipts::chain;
use crate::receipts::chain::ReceiptChain;
use crate::text;

verus! {

// ---------------------------------------------------------------- combiner

/// The derived key comes from all 32 bytes of the classical secret followed by
/// all 32 bytes of the post-quantum secret, each byte at its own place, salted
/// with the digest of the transcript.
pub proof fn derivation_takes_both_secrets_whole(
    c: &SharedSecret,
    p: &SharedSecret,
    transcript: &[u8],
    context: &CombinerContext,
    n: usize,
    k: Kek,
    cb: &[u8; 32],
    pb: &[u8; 32],
)
    requires
        call_ensures(
            hybrid_combine,
            (c, p, transcript, context, n),
            Ok::<Kek, CryptoError>(k),
        ),
        call_ensures(SharedSecret::as_bytes, (c,), cb),
        call_ensures(SharedSecret::as_bytes, (p,), pb),
    ensures
        exists|material: Seq<u8>, info: Seq<u8>|
            {
                &&& k@ == #[trigger] primitives::hkdf_sha384(
                    primitives::sha384(transcript@),
                    material,
                    info,
                    n as nat,
                )
                &&& material.len() == 64
                &&& forall|i: int| 0 <= i < 32 ==> #[trigger] material[i] == cb@[i]
                &&& forall|i: int| 32 <= i < 64 ==> #[trigger] material[i] == pb@[i - 32]
            },
        k@.len() == n,
{
    let material = c@ + p@;
    let info = combiner::combiner_info(*context);
    assert(k@ == primitives::hkdf_sha384(
        primitives::sha384(transcript@),
        material,
        info,
        n as nat,
    ));
}

/// The derivation cannot be rebound: two keys are derived from two rows of keying
/// material and two infos, and where these agree, both secrets and every field of
/// the contexts agree.
pub proof fn derivation_pins_secrets_and_context(
    c: (&SharedSecret, &SharedSecret),
    p: (&SharedSecret, &SharedSecret),
    transcript: (&[u8], &[u8]),
    context: (&CombinerContext, &CombinerContext),
    n: usize,
    k: (Kek, Kek),
    cb: (&[u8; 32], &[u8; 32]),
)
    requires
        call_ensures(
            hybrid_combine,
            (c.0, p.0, transcript.0, context.0, n),
            Ok::<Kek, CryptoError>(k.0),
        ),
        call_ensures(
            hybrid_combine,
            (c.1, p.1, transcript.1, context.1, n),
            Ok::<Kek, CryptoError>(k.1),
        ),
        call_ensures(SharedSecret::as_bytes, (c.0,), cb.0),
        call_ensures(SharedSecret::as_bytes, (c.1,), cb.1),
        context.0.fits(),
        context.1.fits(),
    ensures
        exists|m0: Seq<u8>, i0: Seq<u8>, m1: Seq<u8>, i1: Seq<u8>|
            {
                &&& k.0@ == #[trigger] primitives::hkdf_sha384(
                    primitives::sha384(transcript.0@),
                    m0,
                    i0,
                    n as nat,
                )
                &&& k.1@ == #[trigger] primitives::hkdf_sha384(
                    primitives::sha384(transcript.1@),
                    m1,
                    i1,
                    n as nat,
                )
                &&& m0 == m1 ==> c.0@ == c.1@ && p.0@ == p.1@
                &&& i0 == i1 ==> {
                    &&& context.0.volume_id@ == context.1.volume_id@
                    &&& context.0.device_id@ == context.1.device_id@
                    &&& context.0.policy_id@ == context.1.policy_id@
                    &&& context.0.policy_version == context.1.policy_version
                    &&& context.0.algorithm_suite.classical@ == context.1.algorithm_suite.classical@
                    &&& context.0.algorithm_suite.pqc@ == context.1.algorithm_suite.pqc@
                    &&& context.0.algorithm_suite.combiner@ == context.1.algorithm_suite.combiner@
                    &&& context.0.boot_measurement@ == context.1.boot_measurement@
                }
            },
{
    let (m0, m1) = (c.0@ + p.0@, c.1@ + p.1@);
    let (i0, i1) = (
        combiner::combiner_info(*context.0),
        combiner::combiner_info(*context.1),
    );
    assert(k.0@ == primitives::hkdf_sha384(primitives::sha384(transcript.0@), m0, i0, n as nat));
    assert(k.1@ == primitives::hkdf_sha384(primitives::sha384(transcript.1@), m1, i1, n as nat));
    if m0 == m1 {
        combiner::keying_material_pins_legs(c.0@, p.0@, c.1@, p.1@);
    }
    if i0 == i1 {
        combiner::info_pins_context(*context.0, *context.1);
    }
}

/// The info begins with the combiner's label, so that another combiner gives
/// another key.
pub proof fn derivation_is_labelled(
    c: &SharedSecret,
    p: &SharedSecret,
    transcript: &[u8],
    context: &CombinerContext,
    n: usize,
    k: Kek,
    encoded: Vec<u8>,
)
    requires
        call_ensures(
            hybrid_combine,
            (c, p, transcript, context, n),
            Ok::<Kek, CryptoError>(k),
        ),
        call_ensures(CombinerContext::to_bytes, (context,), encoded),
    ensures
        exists|material: Seq<u8>|
            k@ == #[trigger] primitives::hkdf_sha384(
                primitives::sha384(transcript@),
                material,
                text::utf8("storage-unlock-v1"@) + encoded@,
                n as nat,
            ),
{
    let material = c@ + p@;
    assert(k@ == primitives::hkdf_sha384(
        primitives::sha384(transcript@),
        material,
        text::utf8("storage-unlock-v1"@) + encoded@,
        n as nat,
    ));
}

/// A combination fails closed: it gives a key exactly where neither secret is all
/// zero and the length is one that HKDF can give, and each failure has its error.
pub proof fn combination_fails_closed(
    c: &SharedSecret,
    p: &SharedSecret,
    transcript: &[u8],
    context: &CombinerContext,
    n: usize,
    r: Result<Kek, CryptoError>,
)
    requires
        call_ensures(hybrid_combine, (c, p, transcript, context, n), r),
    ensures
        (forall|i: int| 0 <= i < c@.len() ==> #[trigger] c@[i] == 0) ==> r == Err::<
            Kek,
            CryptoError,
        >(CryptoError::EmptySharedSecret),
        (forall|i: int| 0 <= i < p@.len() ==> #[trigger] p@[i] == 0) ==> r == Err::<
            Kek,
            CryptoError,
        >(CryptoError::EmptySharedSecret),
        r is Ok ==> n <= 255 * 48,
        r == Err::<Kek, CryptoError>(CryptoError::EmptySharedSecret) ==> (forall|i: int|
            0 <= i < c@.len() ==> #[trigger] c@[i] == 0) || (forall|i: int|
            0 <= i < p@.len() ==> #[trigger] p@[i] == 0),
        r is Err && r != Err::<Kek, CryptoError>(CryptoError::EmptySharedSecret) ==> r == Err::<
            Kek,
            CryptoError,
        >(CryptoError::Hkdf) && n > 255 * 48,
{
    if !crypto::live(c@) {
        assert forall|i: int| 0 <= i < c@.len() implies #[trigger] c@[i] == 0 by {}
    }
    if !crypto::live(p@) {
        assert forall|i: int| 0 <= i < p@.len() implies #[trigger] p@[i] == 0 by {}
    }
}

/// A context's bytes pin every field of it.
pub proof fn context_bytes_pin_every_field(
    a: &CombinerContext,
    b: &CombinerContext,
    x: Vec<u8>,
    y: Vec<u8>,
)
    requires
        call_ensures(CombinerContext::to_bytes, (a,), x),
        call_ensures(CombinerContext::to_bytes, (b,), y),
        x@ == y@,
        a.fits(),
        b.fits(),
    ensures
        a.volume_id@ == b.volume_id@,
        a.device_id@ == b.device_id@,
        a.policy_id@ == b.policy_id@,
        a.policy_version == b.policy_version,
        a.algorithm_suite.classical@ == b.algorithm_suite.classical@,
        a.algorithm_suite.pqc@ == b.algorithm_suite.pqc@,
        a.algorithm_suite.combiner@ == b.algorithm_suite.combiner@,
        a.boot_measurement@ == b.boot_measurement@,
{
    combiner::info_pins_context(*a, *b);
}

/// A suite's wire form pins its three names, and holds just two plus signs.
pub proof fn wire_form_is_unambiguous(a: &KemSuite, b: &KemSuite, x: String, y: String)
    requires
        call_ensures(KemSuite::canonical, (a,), x),
        call_ensures(KemSuite::canonical, (b,), y),
        x@ == y@,
    ensures
        a.classical@ == b.classical@,
        a.pqc@ == b.pqc@,
        a.combiner@ == b.combiner@,
{
    combiner::wire_pins_suite(*a, *b);
}

// ------------------------------------------------------------------ crypto

/// A secret is live exactly where one of its 32 bytes is not zero.
pub proof fn live_secret_has_a_nonzero_byte(s: &SharedSecret, b: &[u8; 32], r: bool)
    requires
        call_ensures(SharedSecret::as_bytes, (s,), b),
        call_ensures(SharedSecret::is_live, (s,), r),
    ensures
        r <==> exists|i: int| 0 <= i < 32 && #[trigger] b@[i] != 0,
{
}

/// What was encapsulated to the public side of a key pair comes out on the private
/// side.
pub proof fn encapsulated_secret_comes_out(
    kem: &DeterministicKem,
    seed: &[u8],
    randomness: &[u8],
    pair: (EncapKey, DecapKey),
    sent: (KemCiphertext, SharedSecret),
    r: Result<SharedSecret, CryptoError>,
)
    requires
        call_ensures(<DeterministicKem as Kem>::generate_keypair, (kem, seed), pair),
        call_ensures(<DeterministicKem as Kem>::encapsulate, (kem, &pair.0, randomness), sent),
        call_ensures(<DeterministicKem as Kem>::decapsulate, (kem, &pair.1, &sent.0), r),
    ensures
        r is Ok,
        r->Ok_0@ == sent.1@,
{
    crypto::kem_round_trip(kem, seed@, randomness@);
    let d = kem.decap(pair.1.0@, sent.0.0@);
    assert(d == Ok::<Seq<u8>, CryptoError>(sent.1@));
}

/// Decapsulation refuses an empty key, then an empty ciphertext, and nothing else.
pub proof fn decapsulation_refuses_empty_parts(
    kem: &DeterministicKem,
    dk: &DecapKey,
    ct: &KemCiphertext,
    r: Result<SharedSecret, CryptoError>,
)
    requires
        call_ensures(<DeterministicKem as Kem>::decapsulate, (kem, dk, ct), r),
    ensures
        r is Ok <==> dk.0@.len() > 0 && ct.0@.len() > 0,
        dk.0@.len() == 0 ==> r is Err && r->Err_0 == (CryptoError::BadKeyLength {
            expected: 32,
            got: 0,
        }),
        dk.0@.len() > 0 && ct.0@.len() == 0 ==> r is Err && r->Err_0
            == CryptoError::Decapsulation,
{
}

/// The front 32 bytes of a digest.
pub open spec fn front_of(b: Seq<u8>, x: Seq<u8>) -> bool {
    b.len() == 32 && forall|i: int| 0 <= i < 32 ==> #[trigger] b[i] == primitives::sha384(x)[i]
}

proof fn two_framed(a: Seq<u8>, b: Seq<u8>)
    ensures
        crypto::framed_all(seq![a, b]) == crypto::framed(a) + crypto::framed(b),
{
    reveal_with_fuel(crypto::framed_all, 3);
    assert(seq![a, b].drop_last() =~= seq![a]);
    assert(seq![a].drop_last() =~= Seq::empty());
    assert(crypto::framed_all(seq![a]) =~= crypto::framed(a));
    assert(crypto::framed_all(seq![a, b]) =~= crypto::framed(a) + crypto::framed(b));
}

/// A private key is derived from the algorithm and the whole seed: it is the front
/// of a digest, and keys taken from the same bytes have the same algorithm and
/// seed.
pub proof fn private_key_comes_from_algorithm_and_seed(
    ka: &DeterministicKem,
    kb: &DeterministicKem,
    sa: &[u8],
    sb: &[u8],
    pa: (EncapKey, DecapKey),
    pb: (EncapKey, DecapKey),
)
    requires
        call_ensures(<DeterministicKem as Kem>::generate_keypair, (ka, sa), pa),
        call_ensures(<DeterministicKem as Kem>::generate_keypair, (kb, sb), pb),
        text::utf8(ka.alg()).len() <= u64::MAX,
        text::utf8(kb.alg()).len() <= u64::MAX,
        sa@.len() <= u64::MAX,
        sb@.len() <= u64::MAX,
    ensures
        exists|x: Seq<u8>, y: Seq<u8>| #[trigger]
            front_of(pa.1.0@, x) && #[trigger] front_of(pb.1.0@, y) && (x == y ==> ka.alg()
                == kb.alg() && sa@ == sb@),
{
    let domain = text::utf8("qrse:kem:root"@);
    let (aa, ab) = (text::utf8(ka.alg()), text::utf8(kb.alg()));
    let x = domain + crypto::framed_all(seq![aa, sa@]);
    let y = domain + crypto::framed_all(seq![ab, sb@]);
    assert(front_of(pa.1.0@, x) && front_of(pb.1.0@, y));
    if x == y {
        two_framed(aa, sa@);
        two_framed(ab, sb@);
        assert(x.skip(domain.len() as int) =~= crypto::framed(aa) + crypto::framed(sa@));
        assert(y.skip(domain.len() as int) =~= crypto::framed(ab) + crypto::framed(sb@));
        combiner::framed_apart(aa, crypto::framed(sa@), ab, crypto::framed(sb@));
        let e = Seq::<u8>::empty();
        assert(crypto::framed(sa@) + e =~= crypto::framed(sa@));
        assert(crypto::framed(sb@) + e =~= crypto::framed(sb@));
        combiner::framed_apart(sa@, e, sb@, e);
        text::utf8_is_injective(ka.alg(), kb.alg());
    }
}

/// An encapsulated secret is bound to the public key and the ciphertext: secrets
/// are fronts of digests, and secrets taken from the same bytes have both alike.
pub proof fn encapsulated_secret_is_bound(
    ka: &DeterministicKem,
    kb: &DeterministicKem,
    ea: &EncapKey,
    eb: &EncapKey,
    ra: &[u8],
    rb: &[u8],
    a: (KemCiphertext, SharedSecret),
    b: (KemCiphertext, SharedSecret),
)
    requires
        call_ensures(<DeterministicKem as Kem>::encapsulate, (ka, ea, ra), a),
        call_ensures(<DeterministicKem as Kem>::encapsulate, (kb, eb, rb), b),
        ea.0@.len() <= u64::MAX,
        eb.0@.len() <= u64::MAX,
    ensures
        exists|x: Seq<u8>, y: Seq<u8>| #[trigger]
            front_of(a.1@, x) && #[trigger] front_of(b.1@, y) && (x == y ==> ea.0@ == eb.0@
                && a.0.0@ == b.0.0@),
{
    let domain = text::utf8("qrse:kem:ss"@);
    let x = domain + crypto::framed_all(seq![ea.0@, a.0.0@]);
    let y = domain + crypto::framed_all(seq![eb.0@, b.0.0@]);
    assert(front_of(a.1@, x) && front_of(b.1@, y));
    if x == y {
        two_framed(ea.0@, a.0.0@);
        two_framed(eb.0@, b.0.0@);
        assert(x.skip(domain.len() as int) =~= crypto::framed(ea.0@) + crypto::framed(a.0.0@));
        assert(y.skip(domain.len() as int) =~= crypto::framed(eb.0@) + crypto::framed(b.0.0@));
        combiner::framed_apart(ea.0@, crypto::framed(a.0.0@), eb.0@, crypto::framed(b.0.0@));
        let e = Seq::<u8>::empty();
        assert(crypto::framed(a.0.0@) + e =~= crypto::framed(a.0.0@));
        assert(crypto::framed(b.0.0@) + e =~= crypto::framed(b.0.0@));
        combiner::framed_apart(a.0.0@, e, b.0.0@, e);
    }
}

proof fn three_framed(a: Seq<u8>, b: Seq<u8>, c: Seq<u8>)
    ensures
        crypto::framed_all(seq![a, b, c]) == crypto::framed(a) + (crypto::framed(b)
            + crypto::framed(c)),
{
    two_framed(a, b);
    assert(seq![a, b, c].drop_last() =~= seq![a, b]);
    assert(crypto::framed_all(seq![a, b, c]) =~= crypto::framed(a) + (crypto::framed(b)
        + crypto::framed(c)));
}

/// A signer's secret is derived from its algorithm, its key id and the whole seed:
/// it is the front of a digest, and secrets taken from the same bytes have all
/// three alike.
pub proof fn signing_secret_comes_from_algorithm_id_and_seed(
    aa: &str,
    ab: &str,
    ka: &str,
    kb: &str,
    sa: &[u8],
    sb: &[u8],
    na: usize,
    nb: usize,
    a: DeterministicSigner,
    b: DeterministicSigner,
)
    requires
        call_ensures(DeterministicSigner::new, (aa, ka, sa, na), a),
        call_ensures(DeterministicSigner::new, (ab, kb, sb, nb), b),
        text::utf8(aa@).len() <= u64::MAX && text::utf8(ab@).len() <= u64::MAX,
        text::utf8(ka@).len() <= u64::MAX && text::utf8(kb@).len() <= u64::MAX,
        sa@.len() <= u64::MAX && sb@.len() <= u64::MAX,
    ensures
        a.alg() == aa@ && a.key() == ka@,
        exists|x: Seq<u8>, y: Seq<u8>| #[trigger]
            front_of(a.secret_key(), x) && #[trigger] front_of(b.secret_key(), y) && (x == y ==> aa@
                == ab@ && ka@ == kb@ && sa@ == sb@),
{
    let domain = text::utf8("qrse:sig:sk"@);
    let n = domain.len() as int;
    let (fa, fb) = (text::utf8(aa@), text::utf8(ab@));
    let (ga, gb) = (text::utf8(ka@), text::utf8(kb@));
    let x = domain + crypto::framed_all(seq![fa, ga, sa@]);
    let y = domain + crypto::framed_all(seq![fb, gb, sb@]);
    assert(front_of(a.secret_key(), x) && front_of(b.secret_key(), y));
    if x == y {
        three_framed(fa, ga, sa@);
        three_framed(fb, gb, sb@);
        let (ra, rb) = (
            crypto::framed(ga) + crypto::framed(sa@),
            crypto::framed(gb) + crypto::framed(sb@),
        );
        assert(x.skip(n) =~= crypto::framed(fa) + ra);
        assert(y.skip(n) =~= crypto::framed(fb) + rb);
        combiner::framed_apart(fa, ra, fb, rb);
        combiner::framed_apart(ga, crypto::framed(sa@), gb, crypto::framed(sb@));
        let e = Seq::<u8>::empty();
        assert(crypto::framed(sa@) + e =~= crypto::framed(sa@));
        assert(crypto::framed(sb@) + e =~= crypto::framed(sb@));
        combiner::framed_apart(sa@, e, sb@, e);
        text::utf8_is_injective(aa@, ab@);
        text::utf8_is_injective(ka@, kb@);
    }
}

/// What a signer signs, its own verifier takes, for the message that was signed,
/// under the signer's names.
pub proof fn own_verifier_takes_what_was_signed(
    signer: &DeterministicSigner,
    v: DeterministicVerifier,
    message: &[u8],
    sig: Signature,
    r: bool,
)
    requires
        call_ensures(<DeterministicSigner as Signer>::sign, (signer, message), sig),
        call_ensures(DeterministicSigner::to_verifier, (signer,), v),
        call_ensures(<DeterministicVerifier as Verifier>::verify, (&v, message, &sig), r),
    ensures
        r,
        sig.algorithm@ == signer.alg(),
        sig.key_id@ == signer.key(),
        sig.bytes@.len() >= 48,
        sig.bytes@.len() == signer.declared() || signer.declared() < 48,
{
    crypto::signed_is_accepted(*signer, v, message@, sig);
}

/// A verifier takes nothing under another algorithm or another key, and nothing
/// shorter than a tag.
pub proof fn verifier_takes_only_its_own(
    v: &DeterministicVerifier,
    message: &[u8],
    sig: &Signature,
    r: bool,
)
    requires
        call_ensures(<DeterministicVerifier as Verifier>::verify, (v, message, sig), r),
    ensures
        sig.algorithm@ != v.alg() ==> !r,
        sig.key_id@ != v.key() ==> !r,
        sig.bytes@.len() < 48 ==> !r,
{
}

/// A signature is bound to its whole message: what a verifier takes begins with
/// all 48 bytes of a tag under its secret, and tags over the same bytes are over
/// the same message.
pub proof fn signature_is_bound_to_its_message(
    v: &DeterministicVerifier,
    a: &[u8],
    b: &[u8],
    sa: &Signature,
    sb: &Signature,
)
    requires
        call_ensures(<DeterministicVerifier as Verifier>::verify, (v, a, sa), true),
        call_ensures(<DeterministicVerifier as Verifier>::verify, (v, b, sb), true),
    ensures
        exists|x: Seq<u8>, y: Seq<u8>|
            {
                &&& forall|i: int|
                    0 <= i < 48 ==> sa.bytes@[i] == #[trigger] primitives::hmac_sha384(
                        v.secret_key(),
                        x,
                    )[i]
                &&& forall|i: int|
                    0 <= i < 48 ==> sb.bytes@[i] == #[trigger] primitives::hmac_sha384(
                        v.secret_key(),
                        y,
                    )[i]
                &&& x == y ==> a@ == b@
                &&& #[trigger] ends_with(x, a@) && #[trigger] ends_with(y, b@)
            },
{
    let head = text::utf8(v.alg()) + seq![124u8];
    let (x, y) = (crypto::tagged(v.alg(), a@), crypto::tagged(v.alg(), b@));
    assert(x =~= head + a@ && y =~= head + b@);
    assert(x.skip(head.len() as int) =~= a@);
    assert(y.skip(head.len() as int) =~= b@);
    assert(ends_with(x, a@) && ends_with(y, b@));
    let (s, t) = (sa.bytes@.take(48), sb.bytes@.take(48));
    assert forall|i: int| 0 <= i < 48 implies sa.bytes@[i] == #[trigger] primitives::hmac_sha384(
        v.secret_key(),
        x,
    )[i] by {
        assert(s[i] == sa.bytes@[i]);
    }
    assert forall|i: int| 0 <= i < 48 implies sb.bytes@[i] == #[trigger] primitives::hmac_sha384(
        v.secret_key(),
        y,
    )[i] by {
        assert(t[i] == sb.bytes@[i]);
    }
}

/// Row `x` ends in `m`.
pub open spec fn ends_with(x: Seq<u8>, m: Seq<u8>) -> bool {
    x.len() >= m.len() && x.skip(x.len() - m.len()) == m
}

// ---------------------------------------------------------------- manifest

/// A text begins with a word, whatever the case of its ASCII letters.
pub open spec fn begins(s: Seq<char>, word: Seq<char>) -> bool {
    s.len() >= word.len() && text::laws::same_but_case(s.take(word.len() as int), word)
}

/// The two families of post-quantum signatures, by name.
pub open spec fn post_quantum_name(s: Seq<char>) -> bool {
    ||| begins(s, seq!['m', 'l', '-', 'd', 's', 'a'])
    ||| begins(s, seq!['s', 'l', 'h', '-', 'd', 's', 'a'])
}

/// An algorithm is of a post-quantum family exactly by its name.
pub proof fn family_by_name(s: Seq<char>)
    ensures
        manifest::pq_algorithm(s) == post_quantum_name(s),
{
    reveal_strlit("ml-dsa");
    reveal_strlit("slh-dsa");
    let (m, l) = (seq!['m', 'l', '-', 'd', 's', 'a'], seq!['s', 'l', 'h', '-', 'd', 's', 'a']);
    assert("ml-dsa"@ =~= m);
    assert("slh-dsa"@ =~= l);
    folded_word(s, m);
    folded_word(s, l);
}

proof fn folded_word(s: Seq<char>, word: Seq<char>)
    requires
        forall|i: int| 0 <= i < word.len() ==> text::lower_char(#[trigger] word[i]) == word[i],
    ensures
        text::has_prefix(text::lower(s), word) == begins(s, word),
{
    let n = word.len() as int;
    assert(text::lower(s).len() == s.len());
    if s.len() >= n {
        let front = s.take(n);
        assert(text::lower(s).take(n) =~= text::lower(front));
        assert(text::lower(word) =~= word);
        text::laws::folding_forgets_case_only(front, word);
    }
}

/// An algorithm counts as post-quantum exactly where its name begins, in any case,
/// with `ml-dsa` or `slh-dsa`. No other name does.
pub proof fn post_quantum_is_by_name(alg: &str, r: bool)
    requires
        call_ensures(manifest::is_pq_signature_alg, (alg,), r),
    ensures
        r <==> post_quantum_name(alg@),
{
    family_by_name(alg@);
}

/// The verifier knows the signature's key and algorithm, and takes its bytes over
/// the body.
pub open spec fn vouches<V: Verifier + ?Sized>(v: &V, s: ManifestSignature, body: Seq<u8>) -> bool {
    &&& v.key() == s.key_id@
    &&& v.alg() == s.algorithm@
    &&& primitives::hex_bytes(s.signature_ref@) matches Some(b) && v.accepts(
        body,
        s.algorithm@,
        s.key_id@,
        b,
    )
}

/// One of the verifiers vouches for signature `i` of the manifest.
pub open spec fn vouched_for<V: Verifier + ?Sized>(
    m: ManifestView,
    i: int,
    body: Seq<u8>,
    verifiers: Seq<&V>,
) -> bool {
    &&& 0 <= i < m.signatures.len()
    &&& exists|j: int|
        0 <= j < verifiers.len() && vouches(#[trigger] verifiers[j], m.signatures[i], body)
}

proof fn valid_is_vouched_for<V: Verifier + ?Sized>(
    m: ManifestView,
    i: int,
    body: Seq<u8>,
    verifiers: Seq<&V>,
)
    requires
        0 <= i < m.signatures.len(),
        manifest::readable(m.signatures[i]),
    ensures
        manifest::valid_signature(m.signatures[i], body, verifiers) == vouched_for(
            m,
            i,
            body,
            verifiers,
        ),
{
    let s = m.signatures[i];
    if manifest::valid_signature(s, body, verifiers) {
        let j = choose|j: int|
            0 <= j < verifiers.len() && #[trigger] manifest::taken_by(verifiers, j, s, body);
        assert(vouches(verifiers[j], s, body));
    }
    if vouched_for(m, i, body, verifiers) {
        let j = choose|j: int|
            0 <= j < verifiers.len() && vouches(#[trigger] verifiers[j], s, body);
        assert(manifest::taken_by(verifiers, j, s, body));
    }
}

/// A verified manifest has the known format, and carries a signature over its body
/// that a verifier vouches for and whose algorithm is named as post-quantum. A
/// classical signature alone never gives one.
pub proof fn verified_manifest_is_signed_post_quantum<V: Verifier + ?Sized>(
    m: &QrsdManifest,
    verifiers: &[&V],
    v: VerifiedManifest,
    body: Vec<u8>,
)
    requires
        call_ensures(
            QrsdManifest::verify::<V>,
            (m, verifiers),
            Ok::<VerifiedManifest, ManifestError>(v),
        ),
        call_ensures(QrsdManifest::signing_bytes, (m,), body),
    ensures
        m.format@ == "qrsd-v1"@,
        v.content() == m@,
        exists|i: int|
            #[trigger] vouched_for(m@, i, body@, verifiers@) && post_quantum_name(
                m.signatures@[i].algorithm@,
            ),
{
    manifest::verified_only_with_pq_signature(m@, verifiers@);
    let i = choose|i: int|
        0 <= i < m@.signatures.len() && manifest::valid_signature(
            #[trigger] m@.signatures[i],
            body@,
            verifiers@,
        ) && manifest::pq_algorithm(m@.signatures[i].algorithm@);
    manifest::all_readable(m@.signatures, i);
    valid_is_vouched_for(m@, i, body@, verifiers@);
    family_by_name(m@.signatures[i].algorithm@);
    assert(vouched_for(m@, i, body@, verifiers@));
}

/// The purposes that a verified manifest names are those of such signatures, one
/// for each and in their order.
pub proof fn verified_purposes_are_of_such_signatures<'a, V: Verifier + ?Sized>(
    m: &QrsdManifest,
    verifiers: &[&V],
    v: &'a VerifiedManifest,
    purposes: &'a [String],
    body: Vec<u8>,
    k: int,
)
    requires
        call_ensures(
            QrsdManifest::verify::<V>,
            (m, verifiers),
            Ok::<VerifiedManifest, ManifestError>(*v),
        ),
        call_ensures(VerifiedManifest::verified_purposes, (v,), purposes),
        call_ensures(QrsdManifest::signing_bytes, (m,), body),
        0 <= k < purposes@.len(),
    ensures
        purposes@.len() > 0,
        exists|i: int|
            #[trigger] vouched_for(m@, i, body@, verifiers@) && post_quantum_name(
                m.signatures@[i].algorithm@,
            ) && m.signatures@[i].purpose@ == purposes@[k]@,
{
    let all = text::views(purposes@);
    assert(all[k] == purposes@[k]@);
    let i = purpose_comes_from(m@.signatures, body@, verifiers@, k);
    manifest::all_readable(m@.signatures, i);
    valid_is_vouched_for(m@, i, body@, verifiers@);
    family_by_name(m@.signatures[i].algorithm@);
    assert(vouched_for(m@, i, body@, verifiers@));
}

/// Every signature that a verifier vouches for and whose algorithm is named as
/// post-quantum has its purpose among those of the verified manifest.
pub proof fn verified_purposes_are_of_all_such_signatures<'a, V: Verifier + ?Sized>(
    m: &QrsdManifest,
    verifiers: &[&V],
    v: &'a VerifiedManifest,
    purposes: &'a [String],
    body: Vec<u8>,
    i: int,
)
    requires
        call_ensures(
            QrsdManifest::verify::<V>,
            (m, verifiers),
            Ok::<VerifiedManifest, ManifestError>(*v),
        ),
        call_ensures(VerifiedManifest::verified_purposes, (v,), purposes),
        call_ensures(QrsdManifest::signing_bytes, (m,), body),
        vouched_for(m@, i, body@, verifiers@),
        post_quantum_name(m.signatures@[i].algorithm@),
    ensures
        exists|k: int|
            0 <= k < purposes@.len() && (#[trigger] purposes@[k])@ == m.signatures@[i].purpose@,
        purposes@.len() <= m.signatures@.len(),
{
    let all = text::views(purposes@);
    assert(all.len() == purposes@.len());
    manifest::all_readable(m@.signatures, i);
    valid_is_vouched_for(m@, i, body@, verifiers@);
    family_by_name(m@.signatures[i].algorithm@);
    let k = purpose_is_kept(m@.signatures, body@, verifiers@, i);
    assert(all[k] == purposes@[k]@);
}

/// The purpose of a valid post-quantum signature is among the purposes.
pub proof fn purpose_is_kept<V: Verifier + ?Sized>(
    signatures: Seq<ManifestSignature>,
    body: Seq<u8>,
    verifiers: Seq<&V>,
    i: int,
) -> (k: int)
    requires
        0 <= i < signatures.len(),
        manifest::valid_signature(signatures[i], body, verifiers),
        manifest::pq_algorithm(signatures[i].algorithm@),
    ensures
        0 <= k < manifest::pq_purposes(signatures, body, verifiers).len(),
        manifest::pq_purposes(signatures, body, verifiers)[k] == signatures[i].purpose@,
        manifest::pq_purposes(signatures, body, verifiers).len() <= signatures.len(),
    decreases signatures.len(),
{
    let front = signatures.drop_last();
    purposes_are_no_more(front, body, verifiers);
    if i < signatures.len() - 1 {
        assert(front[i] == signatures[i]);
        purpose_is_kept(front, body, verifiers, i)
    } else {
        manifest::pq_purposes(front, body, verifiers).len() as int
    }
}

proof fn purposes_are_no_more<V: Verifier + ?Sized>(
    signatures: Seq<ManifestSignature>,
    body: Seq<u8>,
    verifiers: Seq<&V>,
)
    ensures
        manifest::pq_purposes(signatures, body, verifiers).len() <= signatures.len(),
    decreases signatures.len(),
{
    if signatures.len() > 0 {
        purposes_are_no_more(signatures.drop_last(), body, verifiers);
    }
}

/// Each purpose is that of a valid post-quantum signature.
pub proof fn purpose_comes_from<V: Verifier + ?Sized>(
    signatures: Seq<ManifestSignature>,
    body: Seq<u8>,
    verifiers: Seq<&V>,
    k: int,
) -> (i: int)
    requires
        0 <= k < manifest::pq_purposes(signatures, body, verifiers).len(),
    ensures
        0 <= i < signatures.len(),
        manifest::valid_signature(signatures[i], body, verifiers),
        manifest::pq_algorithm(signatures[i].algorithm@),
        signatures[i].purpose@ == manifest::pq_purposes(signatures, body, verifiers)[k],
    decreases signatures.len(),
{
    let front = signatures.drop_last();
    let before = manifest::pq_purposes(front, body, verifiers);
    if k < before.len() {
        let i = purpose_comes_from(front, body, verifiers, k);
        assert(front[i] == signatures[i]);
        i
    } else {
        signatures.len() - 1
    }
}

/// A manifest that is not verified has an error that says why: another format; a
/// signature that cannot be read; valid signatures, but none of them post-quantum;
/// or no valid signature at all.
pub proof fn unverified_manifest_says_why<V: Verifier + ?Sized>(
    m: &QrsdManifest,
    verifiers: &[&V],
    e: ManifestError,
    body: Vec<u8>,
)
    requires
        call_ensures(
            QrsdManifest::verify::<V>,
            (m, verifiers),
            Err::<VerifiedManifest, ManifestError>(e),
        ),
        call_ensures(QrsdManifest::signing_bytes, (m,), body),
    ensures
        m.format@ != "qrsd-v1"@ <==> e is BadFormat,
        e is BadSignatureEncoding ==> exists|i: int|
            0 <= i < m.signatures@.len() && primitives::hex_bytes(
                (#[trigger] m.signatures@[i]).signature_ref@,
            ) is None && m.signatures@[i].key_id@ == e->key_id@,
        e is InsufficientPostQuantum ==> exists|i: int| #[trigger]
            vouched_for(m@, i, body@, verifiers@),
        e is InsufficientPostQuantum || e is NoValidSignature ==> forall|i: int| #[trigger]
            vouched_for(m@, i, body@, verifiers@) ==> !post_quantum_name(
                m.signatures@[i].algorithm@,
            ),
        e is NoValidSignature ==> forall|i: int| !#[trigger]
            vouched_for(m@, i, body@, verifiers@),
        !(e is Json),
{
    let s = m@.signatures;
    let found = m@.verdict(verifiers@);
    if e is BadSignatureEncoding {
        let i = choose|i: int| manifest::first_unreadable(s, i);
        assert(m.signatures@[i] == s[i]);
    }
    if e is InsufficientPostQuantum || e is NoValidSignature {
        assert forall|i: int| 0 <= i < s.len() implies #[trigger] manifest::readable(s[i]) by {
            manifest::all_readable(s, i);
        }
        assert forall|i: int| #[trigger] vouched_for(
            m@,
            i,
            body@,
            verifiers@,
        ) implies !post_quantum_name(m.signatures@[i].algorithm@) by {
            assert(manifest::readable(s[i]));
            valid_is_vouched_for(m@, i, body@, verifiers@);
            family_by_name(s[i].algorithm@);
            if manifest::pq_algorithm(s[i].algorithm@) {
                manifest::pq_purpose_of_index(s, body@, verifiers@, i);
            }
        }
    }
    if e is InsufficientPostQuantum {
        let i = choose|i: int|
            0 <= i < s.len() && manifest::valid_signature(#[trigger] s[i], body@, verifiers@)
                && !manifest::pq_algorithm(s[i].algorithm@);
        assert(manifest::readable(s[i]));
        valid_is_vouched_for(m@, i, body@, verifiers@);
        assert(vouched_for(m@, i, body@, verifiers@));
    }
    if e is NoValidSignature {
        assert forall|i: int| !#[trigger] vouched_for(m@, i, body@, verifiers@) by {
            if vouched_for(m@, i, body@, verifiers@) {
                assert(manifest::readable(s[i]));
                valid_is_vouched_for(m@, i, body@, verifiers@);
                family_by_name(s[i].algorithm@);
                assert(!manifest::pq_algorithm(s[i].algorithm@));
                assert(manifest::valid_signature(s[i], body@, verifiers@));
            }
        }
    }
}

/// Signing puts one readable signature at the end, with the signature's own names
/// and the purpose asked for, and changes nothing of what is signed.
pub proof fn signing_adds_one_signature(
    m: &mut QrsdManifest,
    signer: &DeterministicSigner,
    purpose: &str,
    u: (),
)
    requires
        call_ensures(QrsdManifest::sign::<DeterministicSigner>, (m, signer, purpose), u),
    ensures
        final(m).signatures@.len() == old(m).signatures@.len() + 1,
        final(m).signatures@.drop_last() == old(m).signatures@,
        final(m).signatures@.last().purpose@ == purpose@,
        final(m).signatures@.last().algorithm@ == signer.alg(),
        final(m).signatures@.last().key_id@ == signer.key(),
        primitives::hex_bytes(final(m).signatures@.last().signature_ref@) is Some,
        final(m)@.volume_id == old(m)@.volume_id,
        final(m)@.boot_policy == old(m)@.boot_policy,
        final(m)@.keyslots == old(m)@.keyslots,
        final(m)@.format == old(m)@.format,
{
    let (sig, ms) = choose|sig: Signature, ms: ManifestSignature| #[trigger]
        signer.signs(old(m)@.signed_bytes(), sig) && #[trigger] manifest::describes(
            ms,
            sig,
            purpose@,
        ) && final(m)@ == (ManifestView {
            signatures: old(m)@.signatures.push(ms),
            ..old(m)@
        });
    assert(final(m)@.signatures == final(m).signatures@);
    assert(final(m).signatures@.drop_last() =~= old(m).signatures@);
    primitives::hex_round_trip(sig.bytes@);
}

/// A manifest of the known format whose signatures can be read verifies against
/// the key that it is then signed with, where that key is post-quantum by name.
pub proof fn manifest_signed_post_quantum_verifies(
    m: &mut QrsdManifest,
    signer: &DeterministicSigner,
    purpose: &str,
    u: (),
    after: &QrsdManifest,
    key: DeterministicVerifier,
    verifiers: &[&DeterministicVerifier],
    r: Result<VerifiedManifest, ManifestError>,
)
    requires
        call_ensures(QrsdManifest::sign::<DeterministicSigner>, (m, signer, purpose), u),
        *after == *final(m),
        call_ensures(DeterministicSigner::to_verifier, (signer,), key),
        verifiers@.len() == 1,
        *verifiers@[0] == key,
        call_ensures(QrsdManifest::verify::<DeterministicVerifier>, (after, verifiers), r),
        old(m).format@ == "qrsd-v1"@,
        post_quantum_name(signer.alg()),
        forall|i: int|
            0 <= i < old(m).signatures@.len() ==> primitives::hex_bytes(
                (#[trigger] old(m).signatures@[i]).signature_ref@,
            ) is Some,
    ensures
        r is Ok,
{
    let (sig, ms) = choose|sig: Signature, ms: ManifestSignature| #[trigger]
        signer.signs(old(m)@.signed_bytes(), sig) && #[trigger] manifest::describes(
            ms,
            sig,
            purpose@,
        ) && final(m)@ == (ManifestView {
            signatures: old(m)@.signatures.push(ms),
            ..old(m)@
        });
    let s = after@.signatures;
    let n = old(m)@.signatures.len() as int;
    crypto::signed_is_accepted(*signer, key, after@.signed_bytes(), sig);
    family_by_name(signer.alg());
    assert forall|k: int| 0 <= k < s.len() && k != n implies manifest::readable(#[trigger] s[k]) by {
        assert(s[k] == old(m).signatures@[k]);
    }
    manifest::signed_manifest_verifies(after@, verifiers@, n, 0, sig, purpose@);
}

/// What is signed pins every field outside the signatures: manifests with the same
/// signed bytes agree in each of them, down to each keyslot.
pub proof fn signed_bytes_pin_every_field(
    a: &QrsdManifest,
    b: &QrsdManifest,
    x: Vec<u8>,
    y: Vec<u8>,
)
    requires
        call_ensures(QrsdManifest::signing_bytes, (a,), x),
        call_ensures(QrsdManifest::signing_bytes, (b,), y),
        x@ == y@,
    ensures
        a.format@ == b.format@,
        a.volume_id@ == b.volume_id@,
        a.created_at@ == b.created_at@,
        a.data_plane.cipher@ == b.data_plane.cipher@,
        a.data_plane.xts_raw_key_bits == b.data_plane.xts_raw_key_bits,
        a.data_plane.sector_size == b.data_plane.sector_size,
        a.data_plane.integrity.mode@ == b.data_plane.integrity.mode@,
        text::views(a.data_plane.integrity.alternatives@) == text::views(
            b.data_plane.integrity.alternatives@,
        ),
        a.boot_policy.policy_id@ == b.boot_policy.policy_id@,
        a.boot_policy.secure_boot_required == b.boot_policy.secure_boot_required,
        a.boot_policy.measured_boot_required == b.boot_policy.measured_boot_required,
        text::views(a.boot_policy.pcr_profile@) == text::views(b.boot_policy.pcr_profile@),
        a.boot_policy.minimum_boot_manifest_version
            == b.boot_policy.minimum_boot_manifest_version,
        a.boot_policy.rollback_protection.type_@ == b.boot_policy.rollback_protection.type_@,
        a.boot_policy.rollback_protection.counter_name@
            == b.boot_policy.rollback_protection.counter_name@,
        a.key_hierarchy.volume_master_key_version == b.key_hierarchy.volume_master_key_version,
        a.key_hierarchy.active_dek_version == b.key_hierarchy.active_dek_version,
        a.key_hierarchy.keyslots@.len() == b.key_hierarchy.keyslots@.len(),
        forall|i: int|
            0 <= i < a.key_hierarchy.keyslots@.len() ==> same_slot(
                #[trigger] a.key_hierarchy.keyslots@[i],
                b.key_hierarchy.keyslots@[i],
            ),
        a.audit.last_rotation@ == b.audit.last_rotation@,
        a.audit.last_attested_unlock_receipt@ == b.audit.last_attested_unlock_receipt@,
        a.audit.log_chain@ == b.audit.log_chain@,
{
    manifest::signed_bytes_pin_sections(a@, b@);
    manifest::hierarchy_pins_slots(a@, b@);
    let (d, e) = (a@.data_plane.json()->Object_0, b@.data_plane.json()->Object_0);
    assert(d[0] == e[0] && d[1] == e[1] && d[2] == e[2] && d[3] == e[3]);
    let (di, ei) = (d[3].1->Object_0, e[3].1->Object_0);
    assert(di[0] == ei[0] && di[1] == ei[1]);
    json::unambiguous::text_list_pins_texts(a@.data_plane.alternatives, b@.data_plane.alternatives);
    let (p, q) = (a@.boot_policy.json()->Object_0, b@.boot_policy.json()->Object_0);
    assert(p[0] == q[0] && p[1] == q[1] && p[2] == q[2]);
    assert(p[3] == q[3] && p[4] == q[4] && p[5] == q[5]);
    let (pi, qi) = (p[5].1->Object_0, q[5].1->Object_0);
    assert(pi[0] == qi[0] && pi[1] == qi[1]);
    json::unambiguous::text_list_pins_texts(a@.boot_policy.pcr_profile, b@.boot_policy.pcr_profile);
    let (u, v) = (
        manifest::audit_json(a.audit)->Object_0,
        manifest::audit_json(b.audit)->Object_0,
    );
    assert(u[0] == v[0] && u[1] == v[1] && u[2] == v[2]);
    let (s, t) = (a@.keyslots, b@.keyslots);
    assert(s.len() == a.key_hierarchy.keyslots@.len());
    assert(t.len() == b.key_hierarchy.keyslots@.len());
    assert forall|i: int| 0 <= i < a.key_hierarchy.keyslots@.len() implies same_slot(
        #[trigger] a.key_hierarchy.keyslots@[i],
        b.key_hierarchy.keyslots@[i],
    ) by {
        assert(s[i] == a.key_hierarchy.keyslots@[i]@);
        assert(t[i] == b.key_hierarchy.keyslots@[i]@);
        assert(s[i].json() == t[i].json());
        slot_document_pins_slot(
            a.key_hierarchy.keyslots@[i],
            b.key_hierarchy.keyslots@[i],
        );
    }
}

// ---------------------------------------------------------------- keyslots

/// Two slots that hold the same in every field.
pub open spec fn same_slot(a: Keyslot, b: Keyslot) -> bool {
    &&& a.slot == b.slot
    &&& a.status == b.status
    &&& match (a.kind, b.kind) {
        (
            KeyslotKind::Argon2idPassphrase { kdf: k, wrap: w },
            KeyslotKind::Argon2idPassphrase { kdf: l, wrap: x },
        ) => {
            &&& k.algorithm@ == l.algorithm@ && k.memory_kib == l.memory_kib
            &&& k.time_cost == l.time_cost && k.parallelism == l.parallelism
            &&& w.algorithm@ == x.algorithm@ && w.wrapped_key_ref@ == x.wrapped_key_ref@
        },
        (
            KeyslotKind::Tpm2Sealed { pcrs: p, requires_pin: i, signed_pcr_policy: s },
            KeyslotKind::Tpm2Sealed { pcrs: q, requires_pin: j, signed_pcr_policy: t },
        ) => text::views(p@) == text::views(q@) && i == j && s == t,
        (
            KeyslotKind::HybridRemoteKms { kem: k, attestation: c },
            KeyslotKind::HybridRemoteKms { kem: l, attestation: d },
        ) => {
            &&& k.classical@ == l.classical@ && k.pqc@ == l.pqc@ && k.combiner@ == l.combiner@
            &&& c.required == d.required
            &&& text::views(c.accepted_tee@) == text::views(d.accepted_tee@)
            &&& c.measurement_policy_ref@ == d.measurement_policy_ref@
        },
        (
            KeyslotKind::ThresholdRecovery { scheme: s, m, n },
            KeyslotKind::ThresholdRecovery { scheme: t, m: k, n: l },
        ) => s@ == t@ && m == k && n == l,
        _ => false,
    }
}

proof fn slot_document_pins_slot(a: Keyslot, b: Keyslot)
    requires
        a@.json() == b@.json(),
    ensures
        same_slot(a, b),
{
    keyslot::document_pins_slot(a@, b@);
    reveal_strlit("argon2id_passphrase");
    reveal_strlit("tpm2_sealed");
    reveal_strlit("hybrid_remote_kms");
    reveal_strlit("threshold_recovery");
    let (p, q) = (a@.json()->Object_0, b@.json()->Object_0);
    assert(p[2] == q[2] && p[3] == q[3] && p[4] == q[4]);
    let (k, l) = (p[2].1->Text_0, q[2].1->Text_0);
    assert(k.len() == l.len());
    match (a.kind, b.kind) {
        (
            KeyslotKind::Argon2idPassphrase { kdf: k, wrap: w },
            KeyslotKind::Argon2idPassphrase { kdf: l, wrap: x },
        ) => {
            let (c, d) = (p[3].1->Object_0, q[3].1->Object_0);
            assert(c[0] == d[0] && c[1] == d[1] && c[2] == d[2] && c[3] == d[3]);
            let (e, f) = (p[4].1->Object_0, q[4].1->Object_0);
            assert(e[0] == f[0] && e[1] == f[1]);
        },
        (
            KeyslotKind::Tpm2Sealed { pcrs: x, requires_pin: i, signed_pcr_policy: s },
            KeyslotKind::Tpm2Sealed { pcrs: y, requires_pin: j, signed_pcr_policy: t },
        ) => {
            assert(p[5] == q[5]);
            json::unambiguous::text_list_pins_texts(x@, y@);
        },
        (
            KeyslotKind::HybridRemoteKms { kem: k, attestation: c },
            KeyslotKind::HybridRemoteKms { kem: l, attestation: d },
        ) => {
            let (e, f) = (p[4].1->Object_0, q[4].1->Object_0);
            assert(e[0] == f[0] && e[1] == f[1] && e[2] == f[2]);
            json::unambiguous::text_list_pins_texts(c.accepted_tee@, d.accepted_tee@);
        },
        (
            KeyslotKind::ThresholdRecovery { scheme: s, m, n },
            KeyslotKind::ThresholdRecovery { scheme: t, m: k, n: l },
        ) => {
            assert(p[5] == q[5]);
        },
        _ => {},
    }
}

/// A slot's document pins every field of it.
pub proof fn slot_document_pins_every_field(a: &Keyslot, b: &Keyslot, x: json::Json, y: json::Json)
    requires
        call_ensures(Keyslot::to_value, (a,), x),
        call_ensures(Keyslot::to_value, (b,), y),
        x@ == y@,
    ensures
        same_slot(*a, *b),
{
    slot_document_pins_slot(*a, *b);
}

/// Nothing but white space.
pub open spec fn shows_nothing(s: Seq<char>) -> bool {
    forall|i: int|
        0 <= i < s.len() ==> text::laws::space_codes().contains(#[trigger] s[i] as u32)
}

proof fn blank_shows_nothing(s: Seq<char>)
    ensures
        text::blank(s) == shows_nothing(s),
{
    assert forall|i: int| 0 <= i < s.len() implies text::white_space(#[trigger] s[i])
        == text::laws::space_codes().contains(s[i] as u32) by {
        text::laws::space_by_code(s[i]);
    }
}

/// A slot has a post-quantum leg exactly where it is a hybrid slot whose
/// post-quantum algorithm has a name that shows something.
pub proof fn only_hybrid_slots_have_a_post_quantum_leg<'a>(
    k: &'a Keyslot,
    hybrid: bool,
    classical_only: bool,
    active: bool,
    suite: Option<&'a KemSuite>,
)
    requires
        call_ensures(Keyslot::is_hybrid, (k,), hybrid),
        call_ensures(Keyslot::classical_only, (k,), classical_only),
        call_ensures(Keyslot::is_active, (k,), active),
        call_ensures(Keyslot::kem_suite, (k,), suite),
    ensures
        hybrid <==> suite is Some,
        !hybrid ==> classical_only,
        suite matches Some(s) ==> (classical_only <==> shows_nothing(s.pqc@)),
        active <==> k.status == KeyslotStatus::Active,
        k.kind is HybridRemoteKms <==> hybrid,
{
    if let Some(s) = suite {
        blank_shows_nothing(s.pqc@);
    }
}

// --------------------------------------------------------------- downgrade

/// The slot is hybrid, with a post-quantum algorithm that has a name.
pub open spec fn whole_hybrid(k: KeyslotView) -> bool {
    k.kind is HybridRemoteKms && !shows_nothing(k.kind->kem.pqc@)
}

/// The slot is hybrid, with its post-quantum algorithm taken out.
pub open spec fn gutted_hybrid(k: KeyslotView) -> bool {
    k.kind is HybridRemoteKms && shows_nothing(k.kind->kem.pqc@)
}

proof fn stripped_is_gutted(k: KeyslotView)
    ensures
        downgrade::stripped(k) == gutted_hybrid(k),
{
    if k.kind is HybridRemoteKms {
        blank_shows_nothing(k.kind->kem.pqc@);
    }
}

/// The version is below neither the tenant's floor nor the device's counter and,
/// where a post-quantum path is required and its absence not tolerated, there is a
/// hybrid slot and every hybrid slot still has its post-quantum algorithm.
pub open spec fn not_downgraded(m: ManifestView, floor: VersionFloor, counter: u64) -> bool {
    &&& floor.tenant_min_manifest_version <= m.boot_policy.minimum_boot_manifest_version
    &&& counter <= m.boot_policy.minimum_boot_manifest_version
    &&& floor.require_pqc_signature && !floor.allow_classical_only ==> {
        &&& exists|i: int| 0 <= i < m.keyslots.len() && whole_hybrid(#[trigger] m.keyslots[i])
        &&& forall|i: int| 0 <= i < m.keyslots.len() ==> !gutted_hybrid(#[trigger] m.keyslots[i])
    }
}

/// What the downgrade check accepts.
pub proof fn accepted_is_not_downgraded(m: ManifestView, floor: VersionFloor, counter: u64)
    ensures
        downgrade::downgrade_of(m, floor, counter) is Accepted <==> not_downgraded(
            m,
            floor,
            counter,
        ),
{
    let s = m.keyslots;
    assert forall|i: int| 0 <= i < s.len() implies downgrade::stripped(#[trigger] s[i])
        == gutted_hybrid(s[i]) by {
        stripped_is_gutted(s[i]);
    }
    if exists|i: int| 0 <= i < s.len() && gutted_hybrid(#[trigger] s[i]) {
        let i = choose|i: int| 0 <= i < s.len() && gutted_hybrid(#[trigger] s[i]);
        let k = downgrade::least_stripped(s, i);
        assert(downgrade::first_stripped(s, k));
    }
    if exists|i: int| downgrade::first_stripped(s, i) {
        let i = choose|i: int| downgrade::first_stripped(s, i);
        assert(gutted_hybrid(s[i]));
    } else if downgrade::any_hybrid(s) {
        let i = choose|i: int| 0 <= i < s.len() && (#[trigger] s[i]).hybrid();
        assert(whole_hybrid(s[i]));
    } else if exists|i: int| 0 <= i < s.len() && whole_hybrid(#[trigger] s[i]) {
        let i = choose|i: int| 0 <= i < s.len() && whole_hybrid(#[trigger] s[i]);
        assert(s[i].hybrid());
    }
}

/// A manifest passes the downgrade check exactly where its version is below
/// neither the tenant's floor nor the device's counter and, where a post-quantum
/// path is required and its absence not tolerated, it has a hybrid slot and every
/// hybrid slot still has its post-quantum algorithm.
pub proof fn check_passes_only_without_downgrade(
    m: &VerifiedManifest,
    floor: &VersionFloor,
    counter: u64,
    r: DowngradeVerdict,
    ok: bool,
)
    requires
        call_ensures(downgrade::check, (m, floor, counter), r),
        call_ensures(DowngradeVerdict::is_ok, (&r,), ok),
    ensures
        ok <==> not_downgraded(m.content(), *floor, counter),
        ok <==> r is Accepted,
{
    accepted_is_not_downgraded(m.content(), *floor, counter);
}

/// What a rejection says is true: the version found and the bound that it is
/// below; that no slot is hybrid; or what a gutted slot holds and what it should.
pub proof fn rejection_says_what_is_wrong(
    m: &VerifiedManifest,
    floor: &VersionFloor,
    counter: u64,
    r: DowngradeVerdict,
)
    requires
        call_ensures(downgrade::check, (m, floor, counter), r),
    ensures
        r matches DowngradeVerdict::RejectedStaleVersion { found, floor: f } ==> {
            &&& found == m.content().boot_policy.minimum_boot_manifest_version
            &&& found < f
            &&& f == floor.tenant_min_manifest_version || f == counter
            &&& found < floor.tenant_min_manifest_version ==> f
                == floor.tenant_min_manifest_version
        },
        r is RejectedClassicalOnly ==> forall|i: int|
            0 <= i < m.content().keyslots.len() ==> !(
            (#[trigger] m.content().keyslots[i]).kind is HybridRemoteKms),
        r matches DowngradeVerdict::RejectedSuiteDowngrade { from, to } ==> exists|i: int|
            0 <= i < m.content().keyslots.len() && gutted_hybrid(
                #[trigger] m.content().keyslots[i],
            ) && from@ == (m.content().keyslots[i].kind->kem).classical@ + "+<pqc-required>+"@
                + (m.content().keyslots[i].kind->kem).combiner@,
        m.content().boot_policy.minimum_boot_manifest_version < floor.tenant_min_manifest_version
            || m.content().boot_policy.minimum_boot_manifest_version < counter ==> r
            is RejectedStaleVersion,
{
    let s = m.content().keyslots;
    if r is RejectedSuiteDowngrade {
        let i = choose|i: int| downgrade::first_stripped(s, i);
        stripped_is_gutted(s[i]);
        assert(gutted_hybrid(s[i]));
    }
    if r is RejectedClassicalOnly {
        assert forall|i: int| 0 <= i < s.len() implies !((#[trigger] s[i]).kind
            is HybridRemoteKms) by {
            assert(!s[i].hybrid());
        }
    }
}

/// The check is monotone: what passes under a floor and a counter passes under
/// lower ones.
pub proof fn lower_bounds_let_more_through(
    m: &VerifiedManifest,
    floor: &VersionFloor,
    lower: &VersionFloor,
    counter: u64,
    earlier: u64,
    r: DowngradeVerdict,
    q: DowngradeVerdict,
)
    requires
        call_ensures(downgrade::check, (m, floor, counter), r),
        call_ensures(downgrade::check, (m, lower, earlier), q),
        r is Accepted,
        lower.tenant_min_manifest_version <= floor.tenant_min_manifest_version,
        earlier <= counter,
        lower.require_pqc_signature ==> floor.require_pqc_signature,
        floor.allow_classical_only ==> lower.allow_classical_only,
    ensures
        q is Accepted,
{
}

/// The strict floor asks for everything.
pub proof fn strict_floor_tolerates_nothing(min: u64, f: VersionFloor)
    requires
        call_ensures(VersionFloor::strict, (min,), f),
    ensures
        f.tenant_min_manifest_version == min,
        f.require_pqc_signature,
        !f.allow_classical_only,
{
}

// --------------------------------------------------------------- hierarchy

/// How often keys rotate: keys that live as long as a boot at every boot, recovery
/// material when it is compromised, keys of the remote path every month, keys that
/// sign or wrap data every quarter, roots and devices every year, and user keys
/// when asked.
pub proof fn cadence_by_class(class: KeyClass, r: RotationCadence)
    requires
        call_ensures(KeyHierarchy::rotation_for, (class,), r),
    ensures
        r == RotationCadence::PerBoot <==> class == KeyClass::Dek || class
            == KeyClass::HardwareSealedKey,
        r == RotationCadence::OnCompromise <==> class == KeyClass::RecoveryKey || class
            == KeyClass::ThresholdShare,
        r == RotationCadence::Monthly <==> class == KeyClass::RemoteKmsKey || class
            == KeyClass::PqcWrappedKey,
        r == RotationCadence::Quarterly <==> class == KeyClass::Vmk || class
            == KeyClass::AuditSigningKey,
        r == RotationCadence::Annual <==> class == KeyClass::Kek || class == KeyClass::DeviceKey,
        r == RotationCadence::OnDemand <==> class == KeyClass::UserKey,
        r != RotationCadence::Daily,
{
}

/// A chain leads from the root through a volume master key to a data key, goes
/// down the tree that the builder builds, and passes a post-quantum wrapped key
/// exactly for the hybrid mechanism.
pub proof fn chain_goes_down_the_built_tree(
    h: &KeyHierarchy,
    b: KeyHierarchyBuilder,
    built: KeyHierarchy,
    slot: &Keyslot,
    r: Vec<KeyClass>,
)
    requires
        call_ensures(KeyHierarchyBuilder::build, (b,), built),
        call_ensures(KeyHierarchy::wrapping_chain, (h, slot), r),
    ensures
        r@.len() >= 6,
        r@[0] == KeyClass::Kek,
        r@[r@.len() - 2] == KeyClass::Vmk,
        r@.last() == KeyClass::Dek,
        exists|turns: Seq<int>| #[trigger] hierarchy::goes_down(built.root@, turns, r@),
        r@.contains(KeyClass::PqcWrappedKey) <==> slot.kind is HybridRemoteKms,
        r@.contains(KeyClass::HardwareSealedKey) <==> slot.kind is Tpm2Sealed,
        r@.contains(KeyClass::ThresholdShare) <==> slot.kind is ThresholdRecovery,
        r@.contains(KeyClass::UserKey) <==> slot.kind is Argon2idPassphrase,
{
    hierarchy::wrapping_chain_is_in_tree(
        slot.kind@,
        b.org_name(),
        b.tenant_name(),
        b.device_name(),
    );
    hierarchy::pqc_key_only_for_hybrid(slot.kind@);
    let turns = hierarchy::turns_for(slot.kind@);
    assert(hierarchy::goes_down(built.root@, turns, r@));
    match slot.kind {
        KeyslotKind::Argon2idPassphrase { .. } => {
            assert(r@[3] == KeyClass::UserKey);
        },
        KeyslotKind::Tpm2Sealed { .. } => {
            assert(r@[3] == KeyClass::HardwareSealedKey);
        },
        KeyslotKind::ThresholdRecovery { .. } => {
            assert(r@[4] == KeyClass::ThresholdShare);
        },
        KeyslotKind::HybridRemoteKms { .. } => {
            assert(r@[3] == KeyClass::PqcWrappedKey);
        },
    }
}

/// The built tree carries the three names, each at its own key.
pub proof fn built_tree_carries_the_names(b: KeyHierarchyBuilder, h: KeyHierarchy)
    requires
        call_ensures(KeyHierarchyBuilder::build, (b,), h),
    ensures
        h.root@.id == "org-root-kek:"@ + b.org_name(),
        h.root@.children.len() == 1,
        h.root@.children[0].id == "tenant-kek:"@ + b.tenant_name(),
        h.root@.children[0].children.len() == 2,
        h.root@.children[0].children[0].id == "device-kek:"@ + b.device_name(),
        h.root@.children[0].children[0].class == KeyClass::DeviceKey,
        h.root@.children[0].children[1].class == KeyClass::RemoteKmsKey,
{
}

// ------------------------------------------------------------------ unlock

/// A key comes out of an unlock only where the manifest is signed post-quantum, is
/// no downgrade, has an active hybrid slot with a post-quantum algorithm, and the
/// measurement passes every gate of the key service.
pub proof fn unlock_gives_a_key_only_through_every_gate<
    V: Verifier + ?Sized,
    C: Kem + ?Sized,
    P: Kem + ?Sized,
>(
    req: &UnlockRequest,
    verifiers: &[&V],
    floor: &VersionFloor,
    counter: u64,
    ck: &C,
    pk: &P,
    cl: KemLeg<'_>,
    pl: KemLeg<'_>,
    kms: &KmsSimulator,
    c: &mut ReceiptChain,
    key: Kek,
    body: Vec<u8>,
)
    requires
        call_ensures(
            attested_hybrid_unlock::<V, C, P>,
            (req, verifiers, floor, counter, ck, pk, cl, pl, kms, c),
            Ok::<Kek, UnlockError>(key),
        ),
        call_ensures(QrsdManifest::signing_bytes, (&req.manifest,), body),
    ensures
        exists|i: int|
            #[trigger] vouched_for(req.manifest@, i, body@, verifiers@) && post_quantum_name(
                req.manifest.signatures@[i].algorithm@,
            ),
        req.manifest.format@ == "qrsd-v1"@,
        floor.tenant_min_manifest_version
            <= req.manifest.boot_policy.minimum_boot_manifest_version,
        counter <= req.manifest.boot_policy.minimum_boot_manifest_version,
        exists|i: int|
            0 <= i < req.manifest@.keyslots.len() && whole_hybrid(
                #[trigger] req.manifest@.keyslots[i],
            ) && req.manifest@.keyslots[i].status == KeyslotStatus::Active,
        req.boot_measurement.boot_policy_hash@ == kms.policy.expected_boot_policy_hash@,
        forall|k: u8| #[trigger]
            kms.policy.expected_pcrs@.contains_key(k)
                ==> req.boot_measurement.pcrs@.contains_key(k) && req.boot_measurement.pcrs@[k]
                == kms.policy.expected_pcrs@[k],
        attest::laws::on_the_list(kms.policy, req.boot_measurement.capsule_manifest_hash@),
        kms.policy.min_hypervisor_version <= req.hypervisor_version,
{
    let (release, context) = choose|release: KeyReleaseRequest, context: CombinerContext| #[trigger]
        unlock::is_release_request(release, *req) && #[trigger] unlock::unlocked(
            *req,
            unlock::unlock_stage(
                *req,
                verifiers@,
                *floor,
                counter,
                ck.decap(cl.dk.0@, cl.ct.0@),
                pk.decap(pl.dk.0@, pl.ct.0@),
                kms.policy.admits(release),
            ),
            kms.policy,
            release,
            context,
            *old(c),
            *final(c),
            Ok::<Kek, UnlockError>(key),
        );
    let m = req.manifest@;
    manifest::verified_only_with_pq_signature(m, verifiers@);
    let i = choose|i: int|
        0 <= i < m.signatures.len() && manifest::valid_signature(
            #[trigger] m.signatures[i],
            body@,
            verifiers@,
        ) && manifest::pq_algorithm(m.signatures[i].algorithm@);
    manifest::all_readable(m.signatures, i);
    valid_is_vouched_for(m, i, body@, verifiers@);
    family_by_name(m.signatures[i].algorithm@);
    assert(vouched_for(m, i, body@, verifiers@));
    let k = choose|k: int| unlock::first_unlockable(m.keyslots, k);
    assert(unlock::unlockable(m.keyslots[k]));
    blank_shows_nothing(m.keyslots[k].kind->kem.pqc@);
    assert(whole_hybrid(m.keyslots[k]));
    attest::laws::match_is_holding_all(release.pcrs@, kms.policy.expected_pcrs@);
    text::laws::member_stands_at_some_place(
        kms.policy.allowed_capsule_hashes@,
        release.capsule_hash@,
    );
}

/// The key is derived from the secrets of both legs, whole, salted with the digest
/// of what was signed, and bound to the volume, the device, the policy and its
/// version, the boot policy that was measured and the suite of an active hybrid
/// slot.
pub proof fn unlocked_key_is_bound_to_both_legs_and_the_manifest<
    V: Verifier + ?Sized,
    C: Kem + ?Sized,
    P: Kem + ?Sized,
>(
    req: &UnlockRequest,
    verifiers: &[&V],
    floor: &VersionFloor,
    counter: u64,
    ck: &C,
    pk: &P,
    cl: KemLeg<'_>,
    pl: KemLeg<'_>,
    kms: &KmsSimulator,
    c: &mut ReceiptChain,
    key: Kek,
    body: Vec<u8>,
)
    requires
        call_ensures(
            attested_hybrid_unlock::<V, C, P>,
            (req, verifiers, floor, counter, ck, pk, cl, pl, kms, c),
            Ok::<Kek, UnlockError>(key),
        ),
        call_ensures(QrsdManifest::signing_bytes, (&req.manifest,), body),
    ensures
        ck.decap(cl.dk.0@, cl.ct.0@) is Ok,
        pk.decap(pl.dk.0@, pl.ct.0@) is Ok,
        exists|x: CombinerContext|
            {
                &&& x.volume_id@ == req.manifest.volume_id@
                &&& x.device_id@ == req.device_id@
                &&& x.policy_id@ == req.manifest.boot_policy.policy_id@
                &&& x.policy_version == req.manifest.boot_policy.minimum_boot_manifest_version
                &&& x.boot_measurement@ == req.boot_measurement.boot_policy_hash@
                &&& exists|i: int|
                    0 <= i < req.manifest@.keyslots.len() && whole_hybrid(
                        #[trigger] req.manifest@.keyslots[i],
                    ) && req.manifest@.keyslots[i].status == KeyslotStatus::Active
                        && req.manifest@.keyslots[i].kind->kem == x.algorithm_suite
                &&& key@ == primitives::hkdf_sha384(
                    primitives::sha384(body@),
                    ck.decap(cl.dk.0@, cl.ct.0@)->Ok_0 + pk.decap(pl.dk.0@, pl.ct.0@)->Ok_0,
                    #[trigger] combiner::combiner_info(x),
                    32,
                )
            },
        key@.len() == 32,
{
    let (release, context) = choose|release: KeyReleaseRequest, context: CombinerContext| #[trigger]
        unlock::is_release_request(release, *req) && #[trigger] unlock::unlocked(
            *req,
            unlock::unlock_stage(
                *req,
                verifiers@,
                *floor,
                counter,
                ck.decap(cl.dk.0@, cl.ct.0@),
                pk.decap(pl.dk.0@, pl.ct.0@),
                kms.policy.admits(release),
            ),
            kms.policy,
            release,
            context,
            *old(c),
            *final(c),
            Ok::<Kek, UnlockError>(key),
        );
    let m = req.manifest@;
    let k = choose|k: int| unlock::first_unlockable(m.keyslots, k);
    assert(unlock::unlockable(m.keyslots[k]));
    blank_shows_nothing(m.keyslots[k].kind->kem.pqc@);
    assert(whole_hybrid(m.keyslots[k]));
    assert(key@ == primitives::hkdf_sha384(
        primitives::sha384(body@),
        ck.decap(cl.dk.0@, cl.ct.0@)->Ok_0 + pk.decap(pl.dk.0@, pl.ct.0@)->Ok_0,
        combiner::combiner_info(context),
        32,
    ));
}

/// An unlock adds to the record and never changes it; its last receipt says
/// `allow` exactly where a key came out, and names the volume.
pub proof fn unlock_is_on_the_record<V: Verifier + ?Sized, C: Kem + ?Sized, P: Kem + ?Sized>(
    req: &UnlockRequest,
    verifiers: &[&V],
    floor: &VersionFloor,
    counter: u64,
    ck: &C,
    pk: &P,
    cl: KemLeg<'_>,
    pl: KemLeg<'_>,
    kms: &KmsSimulator,
    c: &mut ReceiptChain,
    r: Result<Kek, UnlockError>,
)
    requires
        call_ensures(
            attested_hybrid_unlock::<V, C, P>,
            (req, verifiers, floor, counter, ck, pk, cl, pl, kms, c),
            r,
        ),
    ensures
        final(c).entries().len() > old(c).entries().len(),
        final(c).entries().take(old(c).entries().len() as int) == old(c).entries(),
        r is Ok <==> final(c).entries().last().decision@ == "allow"@,
        final(c).entries().last().subject@ == req.manifest.volume_id@,
        final(c).entries().last().event@ == "key_release"@,
        r is Err ==> final(c).entries().last().decision@.take(4) == "deny"@,
        old(c).intact() ==> final(c).intact(),
{
    let (release, context) = choose|release: KeyReleaseRequest, context: CombinerContext| #[trigger]
        unlock::is_release_request(release, *req) && #[trigger] unlock::unlocked(
            *req,
            unlock::unlock_stage(
                *req,
                verifiers@,
                *floor,
                counter,
                ck.decap(cl.dk.0@, cl.ct.0@),
                pk.decap(pl.dk.0@, pl.ct.0@),
                kms.policy.admits(release),
            ),
            kms.policy,
            release,
            context,
            *old(c),
            *final(c),
            r,
        );
    let stage = unlock::unlock_stage(
        *req,
        verifiers@,
        *floor,
        counter,
        ck.decap(cl.dk.0@, cl.ct.0@),
        pk.decap(pl.dk.0@, pl.ct.0@),
        kms.policy.admits(release),
    );
    unlock::every_unlock_is_recorded(
        *req,
        stage,
        kms.policy,
        release,
        context,
        *old(c),
        *final(c),
        r,
    );
    reveal_strlit("deny");
    reveal_strlit("deny:");
    let d = final(c).entries().last().decision@;
    if r is Err {
        assert(d.take(4) =~= "deny"@);
    }
}

/// The release that an unlock asks for: the device, the volume, the measurement and
/// the version as they are in the request, and the volume and its manifest version
/// for a nonce.
pub open spec fn asks_for(release: KeyReleaseRequest, req: UnlockRequest, version: Seq<char>) -> bool {
    &&& release.device_id@ == req.device_id@
    &&& release.vm_id@ == req.manifest.volume_id@
    &&& release.capsule_hash@ == req.boot_measurement.capsule_manifest_hash@
    &&& release.boot_policy_hash@ == req.boot_measurement.boot_policy_hash@
    &&& release.pcrs@ == req.boot_measurement.pcrs@
    &&& release.hypervisor_version == req.hypervisor_version
    &&& release.nonce@ == req.manifest.volume_id@ + ":"@ + version
    &&& text::laws::numeral(version, 10)
    &&& text::laws::worth(version, 10) == req.manifest.boot_policy.minimum_boot_manifest_version
}

/// Where an unlock got as far as the key service, the first receipt that it left is
/// over the release that it asked for.
pub proof fn unlock_asks_for_what_was_measured<
    V: Verifier + ?Sized,
    C: Kem + ?Sized,
    P: Kem + ?Sized,
>(
    req: &UnlockRequest,
    verifiers: &[&V],
    floor: &VersionFloor,
    counter: u64,
    ck: &C,
    pk: &P,
    cl: KemLeg<'_>,
    pl: KemLeg<'_>,
    kms: &KmsSimulator,
    c: &mut ReceiptChain,
    r: Result<Kek, UnlockError>,
)
    requires
        call_ensures(
            attested_hybrid_unlock::<V, C, P>,
            (req, verifiers, floor, counter, ck, pk, cl, pl, kms, c),
            r,
        ),
        r is Ok || r->Err_0 is AttestationDenied || r->Err_0 is Crypto,
    ensures
        exists|release: KeyReleaseRequest, version: Seq<char>| #[trigger]
            asks_for(release, *req, version) && final(c).entries()[old(c).entries().len() as int].inputs_hash@ == chain::document_hash(release.json()),
{
    let (release, context) = choose|release: KeyReleaseRequest, context: CombinerContext| #[trigger]
        unlock::is_release_request(release, *req) && #[trigger] unlock::unlocked(
            *req,
            unlock::unlock_stage(
                *req,
                verifiers@,
                *floor,
                counter,
                ck.decap(cl.dk.0@, cl.ct.0@),
                pk.decap(pl.dk.0@, pl.ct.0@),
                kms.policy.admits(release),
            ),
            kms.policy,
            release,
            context,
            *old(c),
            *final(c),
            r,
        );
    let n = req.manifest.boot_policy.minimum_boot_manifest_version as nat;
    let version = text::decimal(n);
    text::laws::decimal_reads_back(n);
    assert(asks_for(release, *req, version));
}

/// Of the ready-made signers the two post-quantum ones are named so, and the
/// classical one is not; each has the key id and the seed that it was given.
pub proof fn ready_made_signers_are_named_by_family(
    key: &str,
    seed: &[u8],
    m: DeterministicSigner,
    l: DeterministicSigner,
    e: DeterministicSigner,
)
    requires
        call_ensures(DeterministicSigner::ml_dsa_65, (key, seed), m),
        call_ensures(DeterministicSigner::slh_dsa_128s, (key, seed), l),
        call_ensures(DeterministicSigner::ecdsa_p384, (key, seed), e),
    ensures
        post_quantum_name(m.alg()) && post_quantum_name(l.alg()) && !post_quantum_name(e.alg()),
        m.alg() != l.alg(),
        m.key() == key@ && l.key() == key@ && e.key() == key@,
        m.declared() == 3309 && l.declared() == 7856 && e.declared() == 104,
        m.secret_key() == crypto::signing_secret(m.alg(), key@, seed@),
        l.secret_key() == crypto::signing_secret(l.alg(), key@, seed@),
        e.secret_key() == crypto::signing_secret(e.alg(), key@, seed@),
{
    reveal_strlit("ml-dsa-65");
    reveal_strlit("slh-dsa-128s");
    reveal_strlit("ecdsa-p384");
    let (w, v) = (seq!['m', 'l', '-', 'd', 's', 'a'], seq!['s', 'l', 'h', '-', 'd', 's', 'a']);
    assert(m.alg().take(6) =~= w);
    assert(l.alg().take(7) =~= v);
    assert(e.alg()[0] == 'e');
    assert(m.alg().len() == 9 && l.alg().len() == 12);
    if begins(e.alg(), w) {
        assert(text::laws::same_letter(e.alg().take(6)[0], w[0]));
    }
    if begins(e.alg(), v) {
        assert(text::laws::same_letter(e.alg().take(7)[0], v[0]));
    }
}

/// A verified manifest shows the version and the slots of the manifest that was
/// verified.
pub proof fn verified_manifest_shows_the_manifest<'a, V: Verifier + ?Sized>(
    m: &QrsdManifest,
    verifiers: &[&V],
    v: &'a VerifiedManifest,
    version: u64,
    slots: &'a [Keyslot],
)
    requires
        call_ensures(
            QrsdManifest::verify::<V>,
            (m, verifiers),
            Ok::<VerifiedManifest, ManifestError>(*v),
        ),
        call_ensures(VerifiedManifest::min_boot_manifest_version, (v,), version),
        call_ensures(VerifiedManifest::keyslots, (v,), slots),
    ensures
        version == m.boot_policy.minimum_boot_manifest_version,
        slots@.len() == m.key_hierarchy.keyslots@.len(),
        forall|i: int|
            0 <= i < slots@.len() ==> (#[trigger] slots@[i])@ == m.key_hierarchy.keyslots@[i]@,
{
    let (a, b) = (keyslot::keyslots_view(slots@), keyslot::keyslots_view(m.key_hierarchy.keyslots@));
    assert(a == b);
    assert(a.len() == slots@.len() && b.len() == m.key_hierarchy.keyslots@.len());
    assert forall|i: int| 0 <= i < slots@.len() implies (#[trigger] slots@[i])@
        == m.key_hierarchy.keyslots@[i]@ by {
        assert(a[i] == slots@[i]@);
        assert(b[i] == m.key_hierarchy.keyslots@[i]@);
    }
}

} // verus!
