//! Algorithm-agile primitives of the control plane.
//!
//! Everything is expressed behind the [`Kem`], [`Signer`] and [`Verifier`]
//! traits, so that a hardware or post-quantum implementation can be dropped in
//! without changing a caller.
//!
//! The bundled implementations are seed-driven SHA-384 and HMAC expansions:
//! reproducible stand-ins, clearly named `Deterministic*`, that must never
//! protect a real secret.
use vstd::prelude::*;

use crate::primitives;
use crate::primitives::DIGEST_LEN;
use crate::text;

verus! {

/// Errors from KEM and signature primitives.
#[derive(Debug, PartialEq, Eq)]
pub enum CryptoError {
    /// A shared secret is missing: all its bytes are zero.
    EmptySharedSecret,
    /// A ciphertext is malformed.
    Decapsulation,
    /// Key material has the wrong length.
    BadKeyLength { expected: usize, got: usize },
    /// The key derivation could not give that many bytes.
    Hkdf,
    /// The algorithm is not known.
    UnsupportedAlgorithm(String),
}

impl Clone for CryptoError {
    fn clone(&self) -> (r: Self)
        ensures
            r == *self,
    {
        match self {
            CryptoError::EmptySharedSecret => CryptoError::EmptySharedSecret,
            CryptoError::Decapsulation => CryptoError::Decapsulation,
            CryptoError::BadKeyLength { expected, got } => CryptoError::BadKeyLength {
                expected: *expected,
                got: *got,
            },
            CryptoError::Hkdf => CryptoError::Hkdf,
            CryptoError::UnsupportedAlgorithm(s) => CryptoError::UnsupportedAlgorithm(s.clone()),
        }
    }
}

impl CryptoError {
    /// The text of the error.
    pub open spec fn text(self) -> Seq<char> {
        match self {
            CryptoError::EmptySharedSecret => "empty or zero shared secret"@,
            CryptoError::Decapsulation => "decapsulation failed: malformed ciphertext"@,
            CryptoError::BadKeyLength { expected, got } =>
                "key material has wrong length: expected "@ + text::decimal(expected as nat)
                    + ", got "@ + text::decimal(got as nat),
            CryptoError::Hkdf => "hkdf expand failed"@,
            CryptoError::UnsupportedAlgorithm(a) => "algorithm `"@ + a@ + "` is not supported"@,
        }
    }

    /// The error as one line of text.
    pub fn message(&self) -> (r: String)
        ensures
            r@ == self.text(),
    {
        match self {
            CryptoError::EmptySharedSecret => "empty or zero shared secret".to_string(),
            CryptoError::Decapsulation => {
                "decapsulation failed: malformed ciphertext".to_string()
            },
            CryptoError::BadKeyLength { expected, got } => {
                let mut out = "key material has wrong length: expected ".to_string();
                out.append(text::decimal_text(*expected as u64).as_str());
                out.append(", got ");
                out.append(text::decimal_text(*got as u64).as_str());
                out
            },
            CryptoError::Hkdf => "hkdf expand failed".to_string(),
            CryptoError::UnsupportedAlgorithm(a) => {
                let mut out = "algorithm `".to_string();
                out.append(a.as_str());
                out.append("` is not supported");
                out
            },
        }
    }
}

/// A 32-byte symmetric shared secret. Zeroized on drop.
#[derive(PartialEq, Eq)]
pub struct SharedSecret {
    bytes: [u8; 32],
}

impl View for SharedSecret {
    type V = Seq<u8>;

    closed spec fn view(&self) -> Seq<u8> {
        self.bytes@
    }
}

impl Drop for SharedSecret {
    fn drop(&mut self)
        opens_invariants none
        no_unwind
    {
        primitives::wipe_array(&mut self.bytes);
    }
}

impl Clone for SharedSecret {
    fn clone(&self) -> (r: Self)
        ensures
            r@ == self@,
    {
        SharedSecret { bytes: self.bytes }
    }
}

/// A shared secret is live when it is not all zero.
pub open spec fn live(secret: Seq<u8>) -> bool {
    exists|i: int| 0 <= i < secret.len() && #[trigger] secret[i] != 0
}

impl SharedSecret {
    /// The secret with these bytes.
    pub fn from_bytes(b: [u8; 32]) -> (r: Self)
        ensures
            r@ == b@,
    {
        SharedSecret { bytes: b }
    }

    /// The secret's bytes.
    pub fn as_bytes(&self) -> (r: &[u8; 32])
        ensures
            r@ == self@,
    {
        &self.bytes
    }

    /// A shared secret is "live" only if it is not all-zero.
    pub fn is_live(&self) -> (r: bool)
        ensures
            r == live(self@),
    {
        let mut i: usize = 0;
        while i < 32
            invariant
                i <= 32,
                forall|j: int| 0 <= j < i ==> self@[j] == 0,
            decreases 32 - i,
        {
            if self.bytes[i] != 0 {
                assert(self@[i as int] != 0);
                return true;
            }
            i = i + 1;
        }
        false
    }

    /// What may be shown of a secret: nothing of its bytes.
    pub fn redacted(&self) -> (r: String)
        ensures
            r@ == "SharedSecret(****)"@,
    {
        "SharedSecret(****)".to_string()
    }
}

/// The public side of a KEM key pair.
#[derive(Debug, Clone, PartialEq, Eq)]
pub struct EncapKey(pub Vec<u8>);

/// The private side of a KEM key pair, wrapped by the caller's key hierarchy.
#[derive(Debug, Clone, PartialEq, Eq)]
pub struct DecapKey(pub Vec<u8>);

/// What an encapsulation sends.
#[derive(Debug, Clone, PartialEq, Eq)]
pub struct KemCiphertext(pub Vec<u8>);

/// The bytes of a decapsulated secret, or why there is none.
pub open spec fn secret_view(r: Result<SharedSecret, CryptoError>) -> Result<Seq<u8>, CryptoError> {
    match r {
        Ok(s) => Ok(s@),
        Err(e) => Err(e),
    }
}

/// A key-encapsulation mechanism. Used for both the classical leg (a key
/// exchange modelled as a KEM) and the post-quantum leg of the hybrid
/// combiner. Every operation is a function of its arguments.
pub trait Kem {
    /// The algorithm identifier.
    spec fn alg(&self) -> Seq<char>;

    /// The key pair (public, private) that a seed gives.
    spec fn keypair(&self, seed: Seq<u8>) -> (Seq<u8>, Seq<u8>);

    /// The ciphertext and secret of an encapsulation.
    spec fn encap(&self, ek: Seq<u8>, seed: Seq<u8>) -> (Seq<u8>, Seq<u8>);

    /// The secret of a decapsulation.
    spec fn decap(&self, dk: Seq<u8>, ct: Seq<u8>) -> Result<Seq<u8>, CryptoError>;

    /// Stable algorithm identifier, e.g. `"x25519"` or `"ml-kem-768"`.
    fn algorithm(&self) -> (r: &str)
        ensures
            r@ == self.alg(),
    ;

    /// Deterministically derive a keypair from `seed`.
    fn generate_keypair(&self, seed: &[u8]) -> (r: (EncapKey, DecapKey))
        ensures
            (r.0.0@, r.1.0@) == self.keypair(seed@),
    ;

    /// Encapsulate to `ek`, deriving randomness from `seed`.
    fn encapsulate(&self, ek: &EncapKey, seed: &[u8]) -> (r: (KemCiphertext, SharedSecret))
        ensures
            (r.0.0@, r.1@) == self.encap(ek.0@, seed@),
    ;

    /// Decapsulate `ct` with `dk`.
    fn decapsulate(&self, dk: &DecapKey, ct: &KemCiphertext) -> (r: Result<
        SharedSecret,
        CryptoError,
    >)
        ensures
            secret_view(r) == self.decap(dk.0@, ct.0@),
    ;
}

/// A detached signature.
#[derive(Debug, Clone, PartialEq, Eq)]
pub struct Signature {
    pub algorithm: String,
    pub key_id: String,
    pub bytes: Vec<u8>,
}

/// A detached-signature signer.
pub trait Signer {
    /// The algorithm identifier.
    spec fn alg(&self) -> Seq<char>;

    /// The key identifier.
    spec fn key(&self) -> Seq<char>;

    /// The public key.
    spec fn public(&self) -> Seq<u8>;

    /// Whether `sig` is a signature that this signer gives for `message`.
    spec fn signs(&self, message: Seq<u8>, sig: Signature) -> bool;

    /// Stable algorithm identifier.
    fn algorithm(&self) -> (r: &str)
        ensures
            r@ == self.alg(),
    ;

    /// Identifier of the signing key.
    fn key_id(&self) -> (r: &str)
        ensures
            r@ == self.key(),
    ;

    /// Public key bytes, for embedding in a manifest or trust store.
    fn public_key(&self) -> (r: Vec<u8>)
        ensures
            r@ == self.public(),
    ;

    /// A signature over `message`.
    fn sign(&self, message: &[u8]) -> (r: Signature)
        ensures
            self.signs(message@, r),
    ;
}

/// A signature verifier keyed by `key_id`.
pub trait Verifier {
    /// The algorithm identifier.
    spec fn alg(&self) -> Seq<char>;

    /// The key identifier.
    spec fn key(&self) -> Seq<char>;

    /// Whether the signature (algorithm, key id, bytes) is taken for `message`.
    spec fn accepts(
        &self,
        message: Seq<u8>,
        algorithm: Seq<char>,
        key_id: Seq<char>,
        bytes: Seq<u8>,
    ) -> bool;

    /// Stable algorithm identifier.
    fn algorithm(&self) -> (r: &str)
        ensures
            r@ == self.alg(),
    ;

    /// Identifier of the key that signatures are checked against.
    fn key_id(&self) -> (r: &str)
        ensures
            r@ == self.key(),
    ;

    /// Whether `sig` is a good signature over `message`.
    fn verify(&self, message: &[u8], sig: &Signature) -> (r: bool)
        ensures
            r == self.accepts(message@, sig.algorithm@, sig.key_id@, sig.bytes@),
    ;
}

// ------------------------------------------------- deterministic stand-ins

/// A part with its length in front: eight bytes, the most significant first.
pub open spec fn framed(part: Seq<u8>) -> Seq<u8> {
    text::be_bytes(part.len(), 8) + part
}

/// Every part with its length in front.
pub open spec fn framed_all(parts: Seq<Seq<u8>>) -> Seq<u8>
    decreases parts.len(),
{
    if parts.len() == 0 {
        Seq::empty()
    } else {
        framed_all(parts.drop_last()) + framed(parts.last())
    }
}

/// Appends `part` with its length in front.
pub fn push_framed(out: &mut Vec<u8>, part: &[u8])
    ensures
        final(out)@ == old(out)@ + framed(part@),
{
    let len = text::be_bytes_vec(part.len() as u64, 8);
    text::push_bytes(out, len.as_slice());
    text::push_bytes(out, part);
    assert(out@ =~= old(out)@ + framed(part@));
}

/// The 32 bytes derived from `parts` in `domain`: the front of the SHA-384 of
/// the domain and the framed parts.
pub open spec fn kdf_spec(domain: Seq<char>, parts: Seq<Seq<u8>>) -> Seq<u8> {
    Seq::new(
        32,
        |i: int| primitives::sha384(text::utf8(domain) + framed_all(parts))[i],
    )
}

/// The bytes of each part.
pub open spec fn parts_view(parts: Seq<&[u8]>) -> Seq<Seq<u8>> {
    parts.map_values(|p: &[u8]| p@)
}

fn kdf(domain: &str, parts: &[&[u8]]) -> (r: [u8; 32])
    ensures
        r@ == kdf_spec(domain@, parts_view(parts@)),
{
    let mut data = text::bytes_of(domain);
    let ghost head = data@;
    let mut i: usize = 0;
    let ghost all = parts_view(parts@);
    assert(head + framed_all(all.take(0)) =~= head);
    while i < parts.len()
        invariant
            i <= parts@.len(),
            all == parts_view(parts@),
            data@ == head + framed_all(all.take(i as int)),
        decreases parts@.len() - i,
    {
        push_framed(&mut data, parts[i]);
        assert(all.take(i as int + 1).drop_last() =~= all.take(i as int));
        assert(data@ =~= head + framed_all(all.take(i as int + 1)));
        i = i + 1;
    }
    assert(all.take(i as int) =~= all);
    let digest = primitives::sha384_digest(data.as_slice());
    let mut out: [u8; 32] = [0u8;32];
    let mut k: usize = 0;
    while k < 32
        invariant
            k <= 32,
            digest@.len() == DIGEST_LEN,
            out@.len() == 32,
            forall|j: int| 0 <= j < k ==> out@[j] == digest@[j],
        decreases 32 - k,
    {
        out[k] = digest[k];
        k = k + 1;
    }
    assert(out@ =~= kdf_spec(domain@, all));
    out
}

/// The 32 bytes derived from one part.
fn kdf1(domain: &str, a: &[u8]) -> (r: [u8; 32])
    ensures
        r@ == kdf_spec(domain@, seq![a@]),
{
    let r = kdf(domain, &[a]);
    assert(parts_view([a]@) =~= seq![a@]);
    r
}

/// The 32 bytes derived from two parts.
fn kdf2(domain: &str, a: &[u8], b: &[u8]) -> (r: [u8; 32])
    ensures
        r@ == kdf_spec(domain@, seq![a@, b@]),
{
    let r = kdf(domain, &[a, b]);
    assert(parts_view([a, b]@) =~= seq![a@, b@]);
    r
}

fn kdf_vec(bytes: [u8; 32]) -> (r: Vec<u8>)
    ensures
        r@ == bytes@,
{
    let mut v: Vec<u8> = Vec::new();
    text::push_bytes(&mut v, &bytes);
    assert(v@ =~= bytes@);
    v
}

/// A deterministic, seed-driven KEM standing in for a real one. The shared
/// secret is reproducible from the private key and the ciphertext.
#[derive(Debug, Clone, PartialEq, Eq)]
pub struct DeterministicKem {
    algorithm: String,
    /// Size of a public key of the real algorithm, in bytes.
    pub declared_ek_bytes: usize,
    /// Size of a ciphertext of the real algorithm, in bytes.
    pub declared_ct_bytes: usize,
}

impl DeterministicKem {
    /// The declared size of a public key.
    pub closed spec fn ek_bytes(&self) -> int {
        self.declared_ek_bytes as int
    }

    /// The declared size of a ciphertext.
    pub closed spec fn ct_bytes(&self) -> int {
        self.declared_ct_bytes as int
    }

    /// A stand-in for `algorithm`, with the sizes that it declares.
    pub fn new(algorithm: &str, declared_ek_bytes: usize, declared_ct_bytes: usize) -> (r: Self)
        ensures
            r.alg() == algorithm@,
            r.ek_bytes() == declared_ek_bytes,
            r.ct_bytes() == declared_ct_bytes,
    {
        DeterministicKem {
            algorithm: algorithm.to_string(),
            declared_ek_bytes,
            declared_ct_bytes,
        }
    }

    /// X25519-shaped stand-in (classical leg).
    pub fn x25519() -> (r: Self)
        ensures
            r.alg() == "x25519"@,
            r.ek_bytes() == 32,
            r.ct_bytes() == 32,
    {
        Self::new("x25519", 32, 32)
    }

    /// ML-KEM-768 stand-in (public key 1184 bytes, ciphertext 1088 bytes).
    pub fn ml_kem_768() -> (r: Self)
        ensures
            r.alg() == "ml-kem-768"@,
            r.ek_bytes() == 1184,
            r.ct_bytes() == 1088,
    {
        Self::new("ml-kem-768", 1184, 1088)
    }

    /// ML-KEM-1024 stand-in (public key 1568 bytes, ciphertext 1568 bytes).
    pub fn ml_kem_1024() -> (r: Self)
        ensures
            r.alg() == "ml-kem-1024"@,
            r.ek_bytes() == 1568,
            r.ct_bytes() == 1568,
    {
        Self::new("ml-kem-1024", 1568, 1568)
    }

    /// The root of the key pair that `seed` gives.
    pub open spec fn root_spec(&self, seed: Seq<u8>) -> Seq<u8> {
        kdf_spec("qrse:kem:root"@, seq![text::utf8(self.alg()), seed])
    }

    fn root(&self, seed: &[u8]) -> (r: [u8; 32])
        ensures
            r@ == self.root_spec(seed@),
    {
        kdf2("qrse:kem:root", self.algorithm.as_str().as_bytes(), seed)
    }
}

impl Kem for DeterministicKem {
    closed spec fn alg(&self) -> Seq<char> {
        self.algorithm@
    }

    /// The private key is the root; the public key is derived from it.
    open spec fn keypair(&self, seed: Seq<u8>) -> (Seq<u8>, Seq<u8>) {
        let root = self.root_spec(seed);
        (kdf_spec("qrse:kem:ek"@, seq![root]), root)
    }

    /// The ciphertext commits to randomness bound to the public key; the
    /// secret is derived from the public key and the ciphertext.
    open spec fn encap(&self, ek: Seq<u8>, seed: Seq<u8>) -> (Seq<u8>, Seq<u8>) {
        let r = kdf_spec("qrse:kem:r"@, seq![ek, seed]);
        let ct = kdf_spec("qrse:kem:ct"@, seq![ek, r]);
        (ct, kdf_spec("qrse:kem:ss"@, seq![ek, ct]))
    }

    open spec fn decap(&self, dk: Seq<u8>, ct: Seq<u8>) -> Result<Seq<u8>, CryptoError> {
        if dk.len() == 0 {
            Err(CryptoError::BadKeyLength { expected: 32, got: 0 })
        } else if ct.len() == 0 {
            Err(CryptoError::Decapsulation)
        } else {
            Ok(kdf_spec("qrse:kem:ss"@, seq![kdf_spec("qrse:kem:ek"@, seq![dk]), ct]))
        }
    }

    fn algorithm(&self) -> (r: &str) {
        self.algorithm.as_str()
    }

    fn generate_keypair(&self, seed: &[u8]) -> (r: (EncapKey, DecapKey)) {
        let root = self.root(seed);
        let ek = kdf1("qrse:kem:ek", &root);
        (EncapKey(kdf_vec(ek)), DecapKey(kdf_vec(root)))
    }

    fn encapsulate(&self, ek: &EncapKey, seed: &[u8]) -> (r: (KemCiphertext, SharedSecret)) {
        let r = kdf2("qrse:kem:r", ek.0.as_slice(), seed);
        let ct = kdf2("qrse:kem:ct", ek.0.as_slice(), &r);
        let ss = kdf2("qrse:kem:ss", ek.0.as_slice(), &ct);
        (KemCiphertext(kdf_vec(ct)), SharedSecret::from_bytes(ss))
    }

    fn decapsulate(&self, dk: &DecapKey, ct: &KemCiphertext) -> (r: Result<
        SharedSecret,
        CryptoError,
    >) {
        if dk.0.len() == 0 {
            return Err(CryptoError::BadKeyLength { expected: 32, got: 0 });
        }
        if ct.0.len() == 0 {
            return Err(CryptoError::Decapsulation);
        }
        let ek = kdf1("qrse:kem:ek", dk.0.as_slice());
        let ss = kdf2("qrse:kem:ss", &ek, ct.0.as_slice());
        Ok(SharedSecret::from_bytes(ss))
    }
}

/// Decapsulating what was encapsulated to a key pair's public side gives the
/// encapsulated secret, for every seed.
pub proof fn kem_round_trip(kem: &DeterministicKem, key_seed: Seq<u8>, seed: Seq<u8>)
    ensures
        ({
            let (ek, dk) = kem.keypair(key_seed);
            let (ct, ss) = kem.encap(ek, seed);
            kem.decap(dk, ct) == Ok::<Seq<u8>, CryptoError>(ss)
        }),
{
}

/// What a stand-in signature's tag is taken over: algorithm, bar, message.
pub open spec fn tagged(algorithm: Seq<char>, message: Seq<u8>) -> Seq<u8> {
    text::utf8(algorithm) + seq![124u8] + message
}

/// The 48-byte tag of a stand-in signature.
pub open spec fn mac_spec(secret: Seq<u8>, algorithm: Seq<char>, message: Seq<u8>) -> Seq<u8> {
    Seq::new(48, |i: int| primitives::hmac_sha384(secret, tagged(algorithm, message))[i])
}

fn tagged_bytes(algorithm: &str, message: &[u8]) -> (r: Vec<u8>)
    ensures
        r@ == tagged(algorithm@, message@),
{
    let mut data = text::bytes_of(algorithm);
    data.push(124u8);
    text::push_bytes(&mut data, message);
    assert(data@ =~= tagged(algorithm@, message@));
    data
}

/// The bytes of a stand-in signature: the tag, filled up to the declared size
/// by repeating 32 bytes derived from it.
pub open spec fn padded(mac: Seq<u8>, declared: nat) -> Seq<u8> {
    if mac.len() >= declared {
        mac
    } else {
        let pad = kdf_spec("qrse:sig:pad"@, seq![mac]);
        Seq::new(
            declared,
            |i: int|
                if i < mac.len() {
                    mac[i]
                } else {
                    pad[(i - mac.len()) % 32]
                },
        )
    }
}

/// Deterministic HMAC-based signer standing in for ML-DSA, SLH-DSA or ECDSA.
#[derive(Debug, Clone)]
pub struct DeterministicSigner {
    algorithm: String,
    key_id: String,
    secret: [u8; 32],
    declared_sig_bytes: usize,
}

/// The secret that a stand-in signer derives from its seed.
pub open spec fn signing_secret(
    algorithm: Seq<char>,
    key_id: Seq<char>,
    seed: Seq<u8>,
) -> Seq<u8> {
    kdf_spec("qrse:sig:sk"@, seq![text::utf8(algorithm), text::utf8(key_id), seed])
}

impl DeterministicSigner {
    /// The secret that tags are taken under.
    pub closed spec fn secret_key(&self) -> Seq<u8> {
        self.secret@
    }

    /// The size of a signature, in bytes.
    pub closed spec fn declared(&self) -> nat {
        self.declared_sig_bytes as nat
    }

    /// Whether this signer is the one that the arguments of `new` describe.
    pub open spec fn is_for(
        self,
        algorithm: Seq<char>,
        key_id: Seq<char>,
        seed: Seq<u8>,
        declared: int,
    ) -> bool {
        &&& self.alg() == algorithm
        &&& self.key() == key_id
        &&& self.secret_key() == signing_secret(algorithm, key_id, seed)
        &&& self.declared() == declared
    }

    /// A signer for `algorithm` under `key_id`, with a secret derived from
    /// `seed` and signatures of the size that the algorithm declares.
    pub fn new(algorithm: &str, key_id: &str, seed: &[u8], declared_sig_bytes: usize) -> (r: Self)
        ensures
            r.is_for(algorithm@, key_id@, seed@, declared_sig_bytes as int),
    {
        let (a, k) = (algorithm.as_bytes(), key_id.as_bytes());
        let secret = kdf("qrse:sig:sk", &[a, k, seed]);
        assert(parts_view([a, k, seed]@) =~= seq![a@, k@, seed@]);
        DeterministicSigner {
            algorithm: algorithm.to_string(),
            key_id: key_id.to_string(),
            secret,
            declared_sig_bytes,
        }
    }

    /// ML-DSA-65 stand-in (signature 3309 bytes).
    pub fn ml_dsa_65(key_id: &str, seed: &[u8]) -> (r: Self)
        ensures
            r.is_for("ml-dsa-65"@, key_id@, seed@, 3309),
    {
        Self::new("ml-dsa-65", key_id, seed, 3309)
    }

    /// SLH-DSA-128s stand-in (signature 7856 bytes).
    pub fn slh_dsa_128s(key_id: &str, seed: &[u8]) -> (r: Self)
        ensures
            r.is_for("slh-dsa-128s"@, key_id@, seed@, 7856),
    {
        Self::new("slh-dsa-128s", key_id, seed, 7856)
    }

    /// ECDSA-P384 stand-in (transition-only classical signer).
    pub fn ecdsa_p384(key_id: &str, seed: &[u8]) -> (r: Self)
        ensures
            r.is_for("ecdsa-p384"@, key_id@, seed@, 104),
    {
        Self::new("ecdsa-p384", key_id, seed, 104)
    }

    fn mac(&self, message: &[u8]) -> (r: Vec<u8>)
        ensures
            r@ == mac_spec(self.secret_key(), self.alg(), message@),
    {
        let data = tagged_bytes(self.algorithm.as_str(), message);
        let tag = primitives::hmac_sha384_tag(&self.secret, data.as_slice());
        assert(tag@ =~= mac_spec(self.secret_key(), self.alg(), message@));
        tag
    }

    /// A [`Verifier`] for this key.
    pub fn to_verifier(&self) -> (r: DeterministicVerifier)
        ensures
            r.alg() == self.alg(),
            r.key() == self.key(),
            r.secret_key() == self.secret_key(),
    {
        DeterministicVerifier {
            algorithm: self.algorithm.clone(),
            key_id: self.key_id.clone(),
            secret: self.secret,
        }
    }
}

impl Signer for DeterministicSigner {
    closed spec fn alg(&self) -> Seq<char> {
        self.algorithm@
    }

    closed spec fn key(&self) -> Seq<char> {
        self.key_id@
    }

    open spec fn public(&self) -> Seq<u8> {
        kdf_spec("qrse:sig:pk"@, seq![self.secret_key()])
    }

    open spec fn signs(&self, message: Seq<u8>, sig: Signature) -> bool {
        &&& sig.algorithm@ == self.alg()
        &&& sig.key_id@ == self.key()
        &&& sig.bytes@ == padded(
            mac_spec(self.secret_key(), self.alg(), message),
            self.declared(),
        )
    }

    fn algorithm(&self) -> (r: &str) {
        self.algorithm.as_str()
    }

    fn key_id(&self) -> (r: &str) {
        self.key_id.as_str()
    }

    fn public_key(&self) -> (r: Vec<u8>) {
        kdf_vec(kdf1("qrse:sig:pk", &self.secret))
    }

    fn sign(&self, message: &[u8]) -> (r: Signature) {
        let mut bytes = self.mac(message);
        let ghost mac = bytes@;
        if bytes.len() < self.declared_sig_bytes {
            let pad = kdf1("qrse:sig:pad", bytes.as_slice());
            while bytes.len() < self.declared_sig_bytes
                invariant
                    mac.len() == 48,
                    pad@ == kdf_spec("qrse:sig:pad"@, seq![mac]),
                    48 <= bytes@.len() <= self.declared_sig_bytes,
                    forall|i: int|
                        0 <= i < bytes@.len() ==> #[trigger] bytes@[i] == padded(
                            mac,
                            self.declared_sig_bytes as nat,
                        )[i],
                decreases self.declared_sig_bytes - bytes@.len(),
            {
                let at: usize = (bytes.len() - 48) % 32;
                bytes.push(pad[at]);
            }
        }
        assert(bytes@ =~= padded(mac, self.declared_sig_bytes as nat));
        Signature { algorithm: self.algorithm.clone(), key_id: self.key_id.clone(), bytes }
    }
}

/// Verifier counterpart to [`DeterministicSigner`]; it recomputes the tag.
#[derive(Debug, Clone)]
pub struct DeterministicVerifier {
    algorithm: String,
    key_id: String,
    secret: [u8; 32],
}

impl DeterministicVerifier {
    /// The secret that tags are recomputed under.
    pub closed spec fn secret_key(&self) -> Seq<u8> {
        self.secret@
    }
}

impl Verifier for DeterministicVerifier {
    closed spec fn alg(&self) -> Seq<char> {
        self.algorithm@
    }

    closed spec fn key(&self) -> Seq<char> {
        self.key_id@
    }

    /// The algorithm and the key have to be this verifier's, and the bytes
    /// have to begin with the tag (signatures are filled up to a declared
    /// size).
    open spec fn accepts(
        &self,
        message: Seq<u8>,
        algorithm: Seq<char>,
        key_id: Seq<char>,
        bytes: Seq<u8>,
    ) -> bool {
        &&& algorithm == self.alg()
        &&& key_id == self.key()
        &&& bytes.len() >= 48
        &&& bytes.take(48) == mac_spec(self.secret_key(), self.alg(), message)
    }

    fn algorithm(&self) -> (r: &str) {
        self.algorithm.as_str()
    }

    fn key_id(&self) -> (r: &str) {
        self.key_id.as_str()
    }

    fn verify(&self, message: &[u8], sig: &Signature) -> (r: bool) {
        if !text::same(sig.algorithm.as_str(), self.algorithm.as_str()) || !text::same(
            sig.key_id.as_str(),
            self.key_id.as_str(),
        ) {
            return false;
        }
        if sig.bytes.len() < DIGEST_LEN {
            return false;
        }
        let data = tagged_bytes(self.algorithm.as_str(), message);
        let front = vstd::slice::slice_subrange(sig.bytes.as_slice(), 0, DIGEST_LEN);
        assert(front@ =~= sig.bytes@.take(48));
        let expect = primitives::hmac_sha384_tag(&self.secret, data.as_slice());
        assert(expect@ =~= mac_spec(self.secret_key(), self.alg(), message@));
        assert(expect@.take(48) =~= expect@);
        primitives::hmac_sha384_verify_left(&self.secret, data.as_slice(), front)
    }
}

/// What a signer signs, its verifier accepts, for every message.
pub proof fn signed_is_accepted(
    signer: DeterministicSigner,
    v: DeterministicVerifier,
    message: Seq<u8>,
    sig: Signature,
)
    requires
        v.alg() == signer.alg(),
        v.key() == signer.key(),
        v.secret_key() == signer.secret_key(),
        signer.signs(message, sig),
    ensures
        v.accepts(message, sig.algorithm@, sig.key_id@, sig.bytes@),
{
    let mac = mac_spec(signer.secret_key(), signer.alg(), message);
    assert(sig.bytes@.take(48) =~= mac);
}

/// A verifier takes a signature for two messages only where their tags agree.
pub proof fn accepted_twice_is_same_tag(
    v: DeterministicVerifier,
    a: Seq<u8>,
    b: Seq<u8>,
    algorithm: Seq<char>,
    key_id: Seq<char>,
    bytes: Seq<u8>,
)
    requires
        v.accepts(a, algorithm, key_id, bytes),
        v.accepts(b, algorithm, key_id, bytes),
    ensures
        mac_spec(v.secret_key(), v.alg(), a) == mac_spec(
            v.secret_key(),
            v.alg(),
            b,
        ),
{
}

} // verus!
