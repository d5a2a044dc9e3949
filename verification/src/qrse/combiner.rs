//! The hybrid classical and post-quantum key combiner.
//!
//! ```text
//! KEK = HKDF-SHA384(
//!         salt = H(transcript),
//!         IKM  = ss_classical || ss_pqc,
//!         info = "storage-unlock-v1" || context
//!       )
//! ```
//!
//! It fails closed if either shared secret is missing, binds the algorithm
//! suite, the boot measurement and the policy version into the derivation, and
//! zeroizes the key on drop.
use vstd::prelude::*;

use crate::primitives;
use crate::qrse::crypto;
use crate::qrse::crypto::{push_framed, CryptoError, SharedSecret};
use crate::text;

verus! {

/// Domain-separation label for the storage-unlock combiner. Versioned, so that
/// another combiner gives another key.
pub const COMBINER_LABEL: &'static str = "storage-unlock-v1";

/// The algorithm suite bound into every derivation.
#[derive(Debug, PartialEq, Eq)]
pub struct KemSuite {
    pub classical: String,
    pub pqc: String,
    pub combiner: String,
}

impl Clone for KemSuite {
    fn clone(&self) -> (r: Self)
        ensures
            r == *self,
    {
        KemSuite {
            classical: self.classical.clone(),
            pqc: self.pqc.clone(),
            combiner: self.combiner.clone(),
        }
    }
}

impl KemSuite {
    /// The default commercial transition profile: X25519 and ML-KEM-768.
    pub fn transition_768() -> (r: Self)
        ensures
            r.classical@ == "x25519"@,
            r.pqc@ == "ml-kem-768"@,
            r.combiner@ == "hkdf-sha384"@,
    {
        KemSuite {
            classical: "x25519".to_string(),
            pqc: "ml-kem-768".to_string(),
            combiner: "hkdf-sha384".to_string(),
        }
    }

    /// High-assurance profile: X25519 and ML-KEM-1024.
    pub fn high_assurance_1024() -> (r: Self)
        ensures
            r.classical@ == "x25519"@,
            r.pqc@ == "ml-kem-1024"@,
            r.combiner@ == "hkdf-sha384"@,
    {
        KemSuite {
            classical: "x25519".to_string(),
            pqc: "ml-kem-1024".to_string(),
            combiner: "hkdf-sha384".to_string(),
        }
    }

    /// The suite in one word: the three names with a plus sign between them, and
    /// no plus sign left in any of them.
    pub open spec fn wire(self) -> Seq<char> {
        text::names_form(self.classical@, self.pqc@, self.combiner@)
    }

    /// Canonical, unambiguous wire form for binding into a derivation:
    /// `classical+pqc+combiner`, where a plus or a percent sign in a name is
    /// written by its code, `%2B` or `%25`.
    pub fn canonical(&self) -> (r: String)
        ensures
            r@ == self.wire(),
            text::plain_name(self.classical@) && text::plain_name(self.pqc@) && text::plain_name(
                self.combiner@,
            ) ==> r@ == text::plus_joined(self.classical@, self.pqc@, self.combiner@),
    {
        text::names_text(self.classical.as_str(), self.pqc.as_str(), self.combiner.as_str())
    }
}

/// Everything bound into the combiner's `info`. Every field is authenticated:
/// change any of it and the derivation's input changes.
#[derive(Debug, Clone, PartialEq, Eq)]
pub struct CombinerContext {
    pub volume_id: String,
    pub device_id: String,
    pub policy_id: String,
    pub policy_version: u64,
    pub algorithm_suite: KemSuite,
    /// Boot measurement digest that the key is bound to.
    pub boot_measurement: String,
}

impl CombinerContext {
    /// The fields, each with its length in front.
    pub open spec fn encoded(self) -> Seq<u8> {
        crypto::framed(text::utf8(self.volume_id@)) + crypto::framed(text::utf8(self.device_id@))
            + crypto::framed(text::utf8(self.policy_id@)) + crypto::framed(
            text::be_bytes(self.policy_version as nat, 8),
        ) + crypto::framed(text::utf8(self.algorithm_suite.wire())) + crypto::framed(
            text::utf8(self.boot_measurement@),
        )
    }

    /// Length-prefixed canonical encoding (no field-boundary ambiguity).
    pub fn to_bytes(&self) -> (r: Vec<u8>)
        ensures
            r@ == self.encoded(),
    {
        let mut out: Vec<u8> = Vec::new();
        push_framed(&mut out, self.volume_id.as_str().as_bytes());
        push_framed(&mut out, self.device_id.as_str().as_bytes());
        push_framed(&mut out, self.policy_id.as_str().as_bytes());
        push_framed(&mut out, text::be_bytes_vec(self.policy_version, 8).as_slice());
        push_framed(&mut out, self.algorithm_suite.canonical().as_str().as_bytes());
        push_framed(&mut out, self.boot_measurement.as_str().as_bytes());
        assert(out@ =~= self.encoded());
        out
    }

    /// No field is longer than a length prefix can say.
    pub open spec fn fits(self) -> bool {
        &&& text::utf8(self.volume_id@).len() <= u64::MAX
        &&& text::utf8(self.device_id@).len() <= u64::MAX
        &&& text::utf8(self.policy_id@).len() <= u64::MAX
        &&& text::utf8(self.algorithm_suite.wire()).len() <= u64::MAX
        &&& text::utf8(self.boot_measurement@).len() <= u64::MAX
    }
}

/// A derived key-encryption key. Zeroized on drop; its bytes are never shown.
#[derive(PartialEq, Eq)]
pub struct Kek {
    bytes: Vec<u8>,
}

impl View for Kek {
    type V = Seq<u8>;

    closed spec fn view(&self) -> Seq<u8> {
        self.bytes@
    }
}

impl Drop for Kek {
    fn drop(&mut self)
        opens_invariants none
        no_unwind
    {
        primitives::wipe(&mut self.bytes);
    }
}

impl Clone for Kek {
    fn clone(&self) -> (r: Self)
        ensures
            r@ == self@,
    {
        Kek { bytes: self.bytes.clone() }
    }
}

impl Kek {
    /// Number of key bytes.
    pub fn len(&self) -> (r: usize)
        ensures
            r == self@.len(),
    {
        self.bytes.len()
    }

    /// Whether there are no key bytes.
    pub fn is_empty(&self) -> (r: bool)
        ensures
            r == (self@.len() == 0),
    {
        self.bytes.len() == 0
    }

    /// Controlled access to the key bytes (e.g. to unwrap a master key): `f` is
    /// called once, on exactly the key bytes, and its result is returned.
    pub fn expose<R, F: FnOnce(&[u8]) -> R>(&self, f: F) -> (r: R)
        requires
            forall|b: &[u8]| b@ == self@ ==> call_requires(f, (b,)),
        ensures
            exists|b: &[u8]| b@ == self@ && call_ensures(f, (b,), r),
    {
        f(self.bytes.as_slice())
    }

    /// What may be shown of a key: how long it is.
    pub fn redacted(&self) -> (r: String)
        ensures
            r@ == "Kek(**** "@ + text::decimal(self@.len()) + " bytes)"@,
    {
        let mut out = "Kek(**** ".to_string();
        out.append(text::decimal_text(self.bytes.len() as u64).as_str());
        out.append(" bytes)");
        out
    }
}

/// The `info` of a derivation: the label, then the context.
pub open spec fn combiner_info(context: CombinerContext) -> Seq<u8> {
    text::utf8(COMBINER_LABEL@) + context.encoded()
}

/// The key that a pair of live secrets gives.
pub open spec fn combined(
    ss_classical: Seq<u8>,
    ss_pqc: Seq<u8>,
    transcript: Seq<u8>,
    context: CombinerContext,
    output_len: nat,
) -> Seq<u8> {
    primitives::hkdf_sha384(
        primitives::sha384(transcript),
        ss_classical + ss_pqc,
        combiner_info(context),
        output_len,
    )
}

/// The key or the error of a combination: a dead secret is refused first, then
/// a length that the derivation cannot give.
pub open spec fn combine_spec(
    ss_classical: Seq<u8>,
    ss_pqc: Seq<u8>,
    transcript: Seq<u8>,
    context: CombinerContext,
    output_len: nat,
) -> Result<Seq<u8>, CryptoError> {
    if !crypto::live(ss_classical) || !crypto::live(ss_pqc) {
        Err(CryptoError::EmptySharedSecret)
    } else if output_len > primitives::HKDF_MAX_LEN {
        Err(CryptoError::Hkdf)
    } else {
        Ok(combined(ss_classical, ss_pqc, transcript, context, output_len))
    }
}

/// The bytes of a derived key, or why there is none.
pub open spec fn kek_view(r: Result<Kek, CryptoError>) -> Result<Seq<u8>, CryptoError> {
    match r {
        Ok(k) => Ok(k@),
        Err(e) => Err(e),
    }
}

/// Derive a hybrid KEK from a classical and a post-quantum shared secret.
///
/// `output_len` is the KEK length in bytes (commonly 32 or 64). Fails closed if
/// either shared secret is all-zero.
pub fn hybrid_combine(
    ss_classical: &SharedSecret,
    ss_pqc: &SharedSecret,
    transcript: &[u8],
    context: &CombinerContext,
    output_len: usize,
) -> (r: Result<Kek, CryptoError>)
    requires
        crypto::live(ss_classical@) && crypto::live(ss_pqc@) ==> output_len <= isize::MAX,
    ensures
        kek_view(r) == combine_spec(
            ss_classical@,
            ss_pqc@,
            transcript@,
            *context,
            output_len as nat,
        ),
        r matches Ok(k) ==> k@.len() == output_len,
{
    if !ss_classical.is_live() || !ss_pqc.is_live() {
        return Err(CryptoError::EmptySharedSecret);
    }
    let salt = primitives::sha384_digest(transcript);
    let mut ikm: Vec<u8> = Vec::new();
    text::push_bytes(&mut ikm, ss_classical.as_bytes());
    text::push_bytes(&mut ikm, ss_pqc.as_bytes());
    assert(ikm@ =~= ss_classical@ + ss_pqc@);
    let mut info = text::bytes_of(COMBINER_LABEL);
    text::push_bytes(&mut info, context.to_bytes().as_slice());
    let okm = primitives::hkdf_sha384_expand(
        salt.as_slice(),
        ikm.as_slice(),
        info.as_slice(),
        output_len,
    );
    primitives::wipe(&mut ikm);
    match okm {
        Ok(bytes) => Ok(Kek { bytes }),
        Err(_) => Err(CryptoError::Hkdf),
    }
}

// ------------------------------------------------------------------- laws

/// Big-endian bytes lose nothing of a number that fits.
pub proof fn be_bytes_is_injective(a: nat, b: nat, width: nat)
    requires
        text::be_bytes(a, width) == text::be_bytes(b, width),
        a < vstd::arithmetic::power::pow(256, width),
        b < vstd::arithmetic::power::pow(256, width),
    ensures
        a == b,
    decreases width,
{
    vstd::arithmetic::power::lemma_pow0(256);
    if width > 0 {
        let w = (width - 1) as nat;
        let (x, y) = (text::be_bytes(a, width), text::be_bytes(b, width));
        assert(x.drop_last() =~= text::be_bytes(a / 256, w));
        assert(y.drop_last() =~= text::be_bytes(b / 256, w));
        assert(x.last() == y.last());
        assert(a % 256 == b % 256);
        let p = vstd::arithmetic::power::pow(256, w);
        assert(vstd::arithmetic::power::pow(256, width) == 256 * p) by {
            reveal(vstd::arithmetic::power::pow);
        }
        assert(a / 256 < p) by (nonlinear_arith)
            requires
                a < 256 * p,
        ;
        assert(b / 256 < p) by (nonlinear_arith)
            requires
                b < 256 * p,
        ;
        be_bytes_is_injective(a / 256, b / 256, w);
    }
}

proof fn be_bytes_len(n: nat, width: nat)
    ensures
        text::be_bytes(n, width).len() == width,
    decreases width,
{
    if width > 0 {
        be_bytes_len(n / 256, (width - 1) as nat);
    }
}

proof fn eight_bytes(n: nat)
    requires
        n <= u64::MAX,
    ensures
        n < vstd::arithmetic::power::pow(256, 8),
{
    vstd::arithmetic::power::lemma_pow0(256);
    reveal_with_fuel(vstd::arithmetic::power::pow, 9);
    assert(vstd::arithmetic::power::pow(256, 8) == 18446744073709551616);
}

/// A framed part can be told from what follows it.
pub proof fn framed_apart(a: Seq<u8>, x: Seq<u8>, b: Seq<u8>, y: Seq<u8>)
    requires
        crypto::framed(a) + x == crypto::framed(b) + y,
        a.len() <= u64::MAX,
        b.len() <= u64::MAX,
    ensures
        a == b,
        x == y,
{
    let (p, q) = (text::be_bytes(a.len(), 8), text::be_bytes(b.len(), 8));
    be_bytes_len(a.len(), 8);
    be_bytes_len(b.len(), 8);
    let (l, r) = (crypto::framed(a) + x, crypto::framed(b) + y);
    assert(p =~= l.take(8));
    assert(q =~= r.take(8));
    eight_bytes(a.len());
    eight_bytes(b.len());
    be_bytes_is_injective(a.len(), b.len(), 8);
    let n = a.len() as int;
    assert(a =~= l.subrange(8, 8 + n));
    assert(b =~= r.subrange(8, 8 + n));
    assert(x =~= l.skip(8 + n));
    assert(y =~= r.skip(8 + n));
}

/// The wire form is unambiguous: it pins the suite's three names.
pub proof fn wire_pins_suite(a: KemSuite, b: KemSuite)
    requires
        a.wire() == b.wire(),
    ensures
        a.classical@ == b.classical@,
        a.pqc@ == b.pqc@,
        a.combiner@ == b.combiner@,
{
    text::names_form_pins_names(
        a.classical@,
        a.pqc@,
        a.combiner@,
        b.classical@,
        b.pqc@,
        b.combiner@,
    );
}

/// The names of the known suites are written as they stand.
pub proof fn known_names_are_plain()
    ensures
        text::plain_name("x25519"@),
        text::plain_name("ml-kem-768"@),
        text::plain_name("ml-kem-1024"@),
        text::plain_name("hkdf-sha384"@),
{
    reveal_strlit("x25519");
    reveal_strlit("ml-kem-768");
    reveal_strlit("ml-kem-1024");
    reveal_strlit("hkdf-sha384");
}

/// Six framed parts, one after the other.
spec fn six_framed(p: Seq<Seq<u8>>) -> Seq<u8> {
    crypto::framed(p[0]) + crypto::framed(p[1]) + crypto::framed(p[2]) + crypto::framed(p[3])
        + crypto::framed(p[4]) + crypto::framed(p[5])
}

proof fn six_framed_apart(p: Seq<Seq<u8>>, q: Seq<Seq<u8>>)
    requires
        six_framed(p) == six_framed(q),
        p.len() == 6,
        q.len() == 6,
        forall|i: int| 0 <= i < 6 ==> (#[trigger] p[i]).len() <= u64::MAX,
        forall|i: int| 0 <= i < 6 ==> (#[trigger] q[i]).len() <= u64::MAX,
    ensures
        p == q,
{
    let e = Seq::<u8>::empty();
    let (r5, s5) = (crypto::framed(p[5]) + e, crypto::framed(q[5]) + e);
    let (r4, s4) = (crypto::framed(p[4]) + r5, crypto::framed(q[4]) + s5);
    let (r3, s3) = (crypto::framed(p[3]) + r4, crypto::framed(q[3]) + s4);
    let (r2, s2) = (crypto::framed(p[2]) + r3, crypto::framed(q[2]) + s3);
    let (r1, s1) = (crypto::framed(p[1]) + r2, crypto::framed(q[1]) + s2);
    assert(six_framed(p) =~= crypto::framed(p[0]) + r1);
    assert(six_framed(q) =~= crypto::framed(q[0]) + s1);
    framed_apart(p[0], r1, q[0], s1);
    framed_apart(p[1], r2, q[1], s2);
    framed_apart(p[2], r3, q[2], s3);
    framed_apart(p[3], r4, q[3], s4);
    framed_apart(p[4], r5, q[4], s5);
    framed_apart(p[5], e, q[5], e);
    assert(p =~= q);
}

/// The parts that a context is encoded from.
spec fn context_parts(c: CombinerContext) -> Seq<Seq<u8>> {
    seq![
        text::utf8(c.volume_id@),
        text::utf8(c.device_id@),
        text::utf8(c.policy_id@),
        text::be_bytes(c.policy_version as nat, 8),
        text::utf8(c.algorithm_suite.wire()),
        text::utf8(c.boot_measurement@),
    ]
}

/// The `info` of a derivation pins everything in the context: rebinding a key
/// to another volume, device, policy, policy version, suite or boot
/// measurement changes what the key is derived from.
pub proof fn info_pins_context(a: CombinerContext, b: CombinerContext)
    requires
        a.fits(),
        b.fits(),
        combiner_info(a) == combiner_info(b),
    ensures
        a.volume_id@ == b.volume_id@,
        a.device_id@ == b.device_id@,
        a.policy_id@ == b.policy_id@,
        a.policy_version == b.policy_version,
        a.algorithm_suite.classical@ == b.algorithm_suite.classical@,
        a.algorithm_suite.pqc@ == b.algorithm_suite.pqc@,
        a.algorithm_suite.combiner@ == b.algorithm_suite.combiner@,
        a.boot_measurement@ == b.boot_measurement@,
{
    let label = text::utf8(COMBINER_LABEL@);
    assert(a.encoded() =~= combiner_info(a).skip(label.len() as int));
    assert(b.encoded() =~= combiner_info(b).skip(label.len() as int));
    let (p, q) = (context_parts(a), context_parts(b));
    be_bytes_len(a.policy_version as nat, 8);
    be_bytes_len(b.policy_version as nat, 8);
    assert(a.encoded() == six_framed(p));
    assert(b.encoded() == six_framed(q));
    six_framed_apart(p, q);
    assert(p[0] == q[0] && p[1] == q[1] && p[2] == q[2]);
    assert(p[3] == q[3] && p[4] == q[4] && p[5] == q[5]);
    text::utf8_is_injective(a.volume_id@, b.volume_id@);
    text::utf8_is_injective(a.device_id@, b.device_id@);
    text::utf8_is_injective(a.policy_id@, b.policy_id@);
    text::utf8_is_injective(a.algorithm_suite.wire(), b.algorithm_suite.wire());
    wire_pins_suite(a.algorithm_suite, b.algorithm_suite);
    text::utf8_is_injective(a.boot_measurement@, b.boot_measurement@);
    eight_bytes(a.policy_version as nat);
    eight_bytes(b.policy_version as nat);
    be_bytes_is_injective(a.policy_version as nat, b.policy_version as nat, 8);
}

/// The keying material of a derivation pins both legs, in their order.
pub proof fn keying_material_pins_legs(
    classical: Seq<u8>,
    pqc: Seq<u8>,
    other_classical: Seq<u8>,
    other_pqc: Seq<u8>,
)
    requires
        classical.len() == 32,
        other_classical.len() == 32,
        classical + pqc == other_classical + other_pqc,
    ensures
        classical == other_classical,
        pqc == other_pqc,
{
    let (l, r) = (classical + pqc, other_classical + other_pqc);
    assert(classical =~= l.take(32));
    assert(other_classical =~= r.take(32));
    assert(pqc =~= l.skip(32));
    assert(other_pqc =~= r.skip(32));
}

} // verus!
