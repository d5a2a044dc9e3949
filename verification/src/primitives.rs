//! The cryptographic primitives, each with the name by which contracts speak
//! of its result, and the `"sha384:<hex>"` rendering used throughout.
use vstd::prelude::*;

use crate::json;
use crate::text;

pub mod laws;

verus! {

/// Bytes in a SHA-384 digest.
pub const DIGEST_LEN: usize = 48;

/// The SHA-384 digest of `data`.
pub uninterp spec fn sha384(data: Seq<u8>) -> Seq<u8>;

/// `sha2::Sha384::digest`: the 48-byte SHA-384 digest of `data`.
#[verifier::external_body]
pub(crate) fn sha384_digest(data: &[u8]) -> (r: Vec<u8>)
    ensures
        r@ == sha384(data@),
        r@.len() == DIGEST_LEN,
{
    <sha2::Sha384 as sha2::Digest>::digest(data).to_vec()
}

/// The HMAC-SHA-384 tag of `data` under `key`.
pub uninterp spec fn hmac_sha384(key: Seq<u8>, data: Seq<u8>) -> Seq<u8>;

/// `hmac::Hmac<Sha384>`, keyed with `key`, fed `data` and finalised: the
/// 48-byte tag. HMAC takes a key of any length.
#[verifier::external_body]
pub(crate) fn hmac_sha384_tag(key: &[u8], data: &[u8]) -> (r: Vec<u8>)
    ensures
        r@ == hmac_sha384(key@, data@),
        r@.len() == DIGEST_LEN,
{
    let mut m = <hmac::Hmac<sha2::Sha384> as hmac::Mac>::new_from_slice(key).expect("any key");
    hmac::Mac::update(&mut m, data);
    hmac::Mac::finalize(m).into_bytes().to_vec()
}

/// `hmac::Mac::verify_truncated_left` on `hmac::Hmac<Sha384>`: whether `tag` is
/// a non-empty prefix of the 48-byte tag of `data` under `key`.
#[verifier::external_body]
pub(crate) fn hmac_sha384_verify_left(key: &[u8], data: &[u8], tag: &[u8]) -> (r: bool)
    ensures
        r == (0 < tag@.len() <= DIGEST_LEN && tag@ == hmac_sha384(key@, data@).take(
            tag@.len() as int,
        )),
{
    let mut m = <hmac::Hmac<sha2::Sha384> as hmac::Mac>::new_from_slice(key).expect("any key");
    hmac::Mac::update(&mut m, data);
    hmac::Mac::verify_truncated_left(m, tag).is_ok()
}

/// The error of an HKDF expansion to more bytes than HKDF can give.
#[verifier::external_type_specification]
#[verifier::external_body]
pub struct ExHkdfInvalidLength(hkdf::InvalidLength);

/// Block `n` of an expansion, counted from one: the tag, under the extracted
/// key, of the block before it, `info` and the block's number. Before the first
/// block there is nothing.
pub open spec fn hkdf_block(prk: Seq<u8>, info: Seq<u8>, n: nat) -> Seq<u8>
    decreases n,
{
    if n == 0 {
        Seq::empty()
    } else {
        hmac_sha384(prk, hkdf_block(prk, info, (n - 1) as nat) + info + seq![n as u8])
    }
}

/// The `len` bytes that HKDF-SHA-384 extracts from `ikm` under `salt` and
/// expands with `info`: the first bytes of the blocks, one block after the other.
pub open spec fn hkdf_sha384(salt: Seq<u8>, ikm: Seq<u8>, info: Seq<u8>, len: nat) -> Seq<u8> {
    let prk = hmac_sha384(salt, ikm);
    Seq::new(
        len,
        |i: int| hkdf_block(prk, info, (i / DIGEST_LEN as int + 1) as nat)[i % DIGEST_LEN as int],
    )
}

/// The longest output of HKDF-SHA-384: 255 blocks of 48 bytes.
pub const HKDF_MAX_LEN: usize = 12240;

/// `hkdf::Hkdf<Sha384>::new(Some(salt), ikm)` and its `expand`: the first `len`
/// bytes of the HKDF blocks, which are HMAC-SHA-384 tags, or the error where
/// `len` is over 255 blocks.
#[verifier::external_body]
pub(crate) fn hkdf_sha384_expand(salt: &[u8], ikm: &[u8], info: &[u8], len: usize) -> (r: Result<
    Vec<u8>,
    hkdf::InvalidLength,
>)
    requires
        len <= isize::MAX,
    ensures
        r is Ok <==> len <= HKDF_MAX_LEN,
        r matches Ok(v) ==> v@ == hkdf_sha384(salt@, ikm@, info@, len as nat) && v@.len() == len,
{
    let mut okm = vec![0u8; len];
    hkdf::Hkdf::<sha2::Sha384>::new(Some(salt), ikm).expand(info, &mut okm)?;
    Ok(okm)
}

/// `zeroize::Zeroize::zeroize` on a byte vector: overwrites it with zeros and
/// leaves it empty.
#[verifier::external_body]
pub(crate) fn wipe(v: &mut Vec<u8>)
    ensures
        final(v)@.len() == 0,
    opens_invariants none
    no_unwind
{
    zeroize::Zeroize::zeroize(v)
}

/// `zeroize::Zeroize::zeroize` on a 32-byte array: overwrites it with zeros.
#[verifier::external_body]
pub(crate) fn wipe_array(a: &mut [u8; 32])
    ensures
        forall|i: int| 0 <= i < 32 ==> final(a)@[i] == 0,
    opens_invariants none
    no_unwind
{
    zeroize::Zeroize::zeroize(a)
}

/// Lower-case hexadecimal: two digits per byte, the high half first.
pub open spec fn hex_text(data: Seq<u8>) -> Seq<char> {
    Seq::new(
        2 * data.len(),
        |i: int|
            if i % 2 == 0 {
                json::hex_digit(data[i / 2] as nat / 16)
            } else {
                json::hex_digit(data[i / 2] as nat % 16)
            },
    )
}

/// `hex::encode`: `data` in lower-case hexadecimal.
#[verifier::external_body]
pub(crate) fn hex_encode(data: &[u8]) -> (r: String)
    ensures
        r@ == hex_text(data@),
{
    hex::encode(data)
}

/// The value of a hexadecimal digit, of either case.
pub open spec fn hex_value(b: u8) -> Option<nat> {
    if 48 <= b <= 57 {
        Some((b - 48) as nat)
    } else if 65 <= b <= 70 {
        Some((b - 55) as nat)
    } else if 97 <= b <= 102 {
        Some((b - 87) as nat)
    } else {
        None
    }
}

/// The bytes that a hexadecimal text stands for: none where the number of
/// digits is odd or one of them is no hexadecimal digit.
pub open spec fn hex_bytes(s: Seq<char>) -> Option<Seq<u8>> {
    let b = text::utf8(s);
    if b.len() % 2 == 0 && forall|i: int| 0 <= i < b.len() ==> hex_value(#[trigger] b[i]) is Some {
        Some(
            Seq::new(
                b.len() / 2,
                |i: int| (16 * hex_value(b[2 * i])->0 + hex_value(b[2 * i + 1])->0) as u8,
            ),
        )
    } else {
        None
    }
}

/// Byte `i` is the first that is no hexadecimal digit.
pub open spec fn first_bad_digit(b: Seq<u8>, i: int) -> bool {
    &&& 0 <= i < b.len()
    &&& hex_value(b[i]) is None
    &&& forall|j: int| 0 <= j < i ==> hex_value(#[trigger] b[j]) is Some
}

/// What `hex::FromHexError` shows of a byte that is no hexadecimal digit.
pub uninterp spec fn bad_digit_shown(b: u8) -> Seq<char>;

/// `detail` is what is displayed where `s` is not hexadecimal: that the number
/// of digits is odd, or else the first byte that is no digit and where it
/// stands.
pub open spec fn tells_hex_error(s: Seq<char>, detail: Seq<char>) -> bool {
    let b = text::utf8(s);
    if b.len() % 2 != 0 {
        detail == "Odd number of digits"@
    } else {
        exists|i: int| #[trigger]
            first_bad_digit(b, i) && detail == "Invalid character "@ + bad_digit_shown(b[i])
                + " at position "@ + text::decimal(i as nat)
    }
}

/// `hex::decode`: the bytes that `s` stands for, or the displayed error where
/// the number of bytes in `s` is odd or one of them is no hexadecimal digit.
/// How the offending byte is shown, `char`'s `Debug` formatting, has a name; the
/// rest of the error is stated.
#[verifier::external_body]
pub(crate) fn hex_decode(s: &str) -> (r: Result<Vec<u8>, String>)
    ensures
        match r {
            Ok(v) => hex_bytes(s@) == Some(v@),
            Err(e) => hex_bytes(s@) is None,
        },
        r matches Err(e) ==> text::utf8(s@).len() % 2 != 0 ==> e@ == "Odd number of digits"@,
        r matches Err(e) ==> text::utf8(s@).len() % 2 == 0 ==> exists|i: int| #[trigger]
            first_bad_digit(text::utf8(s@), i) && e@ == "Invalid character "@ + bad_digit_shown(
                text::utf8(s@)[i],
            ) + " at position "@ + text::decimal(i as nat),
{
    hex::decode(s).map_err(|e| e.to_string())
}

/// `"sha384:"` and the digest of `data` in hexadecimal.
pub open spec fn sha384_hex_spec(data: Seq<u8>) -> Seq<char> {
    "sha384:"@ + hex_text(sha384(data))
}

/// SHA-384 digest of `bytes`, formatted as `"sha384:<lowercase-hex>"`: 103
/// characters.
pub fn sha384_hex(bytes: &[u8]) -> (r: String)
    ensures
        r@ == sha384_hex_spec(bytes@),
        r@.len() == 103,
{
    let digest = sha384_digest(bytes);
    let mut out = "sha384:".to_string();
    out.append(hex_encode(digest.as_slice()).as_str());
    proof {
        reveal_strlit("sha384:");
    }
    out
}

/// The hash that the first link of a chain points back to: `"sha384:"`
/// followed by 96 zeros.
pub open spec fn genesis_spec() -> Seq<char> {
    "sha384:"@ + Seq::new(96, |i: int| '0')
}

/// The fixed genesis hash.
pub fn genesis_hash() -> (r: String)
    ensures
        r@ == genesis_spec(),
{
    let mut out = "sha384:".to_string();
    let mut i: usize = 0;
    while i < 96
        invariant
            i <= 96,
            out@ == "sha384:"@ + Seq::new(i as nat, |k: int| '0'),
        decreases 96 - i,
    {
        out.push('0');
        i = i + 1;
    }
    out
}

/// A SHA-384 collision: two different data strings with the same digest.
pub open spec fn collide(a: Seq<u8>, b: Seq<u8>) -> bool {
    a != b && sha384(a) == sha384(b)
}

/// Different digits are written differently.
proof fn hex_digit_is_injective(a: nat, b: nat)
    requires
        a < 16,
        b < 16,
        json::hex_digit(a) == json::hex_digit(b),
    ensures
        a == b,
{
}

/// Hexadecimal loses nothing.
pub proof fn hex_text_is_injective(a: Seq<u8>, b: Seq<u8>)
    requires
        hex_text(a) == hex_text(b),
    ensures
        a == b,
{
    assert(hex_text(a).len() == 2 * a.len());
    assert(hex_text(b).len() == 2 * b.len());
    assert forall|i: int| 0 <= i < a.len() implies a[i] == b[i] by {
        assert(hex_text(a)[2 * i] == hex_text(b)[2 * i]);
        assert(hex_text(a)[2 * i + 1] == hex_text(b)[2 * i + 1]);
        assert((2 * i) / 2 == i && (2 * i + 1) / 2 == i);
        let (x, y) = (a[i] as nat, b[i] as nat);
        assert(hex_text(a)[2 * i] == json::hex_digit(x / 16));
        assert(hex_text(b)[2 * i] == json::hex_digit(y / 16));
        assert(hex_text(a)[2 * i + 1] == json::hex_digit(x % 16));
        assert(hex_text(b)[2 * i + 1] == json::hex_digit(y % 16));
        hex_digit_is_injective(x / 16, y / 16);
        hex_digit_is_injective(x % 16, y % 16);
    }
    assert(a =~= b);
}

/// Decoding gives back what was encoded.
pub proof fn hex_round_trip(data: Seq<u8>)
    ensures
        hex_bytes(hex_text(data)) == Some(data),
{
    let s = hex_text(data);
    assert forall|i: int| 0 <= i < s.len() implies 0 <= #[trigger] (s[i] as nat) < 128 by {
        let d = data[i / 2] as nat;
        assert(d / 16 < 16 && d % 16 < 16);
    }
    assert(vstd::utf8::is_ascii_chars(s));
    vstd::utf8::is_ascii_chars_encode_utf8(s);
    let b = text::utf8(s);
    assert(b =~= Seq::new(s.len(), |i: int| s[i] as u8));
    assert forall|i: int| 0 <= i < b.len() implies hex_value(#[trigger] b[i]) == Some(
        if i % 2 == 0 {
            data[i / 2] as nat / 16
        } else {
            data[i / 2] as nat % 16
        },
    ) by {
        let d = data[i / 2] as nat;
        assert(d / 16 < 16 && d % 16 < 16);
    }
    let back = hex_bytes(s)->0;
    assert forall|i: int| 0 <= i < data.len() implies back[i] == data[i] by {
        assert(hex_value(b[2 * i]) == Some(data[i] as nat / 16));
        assert(hex_value(b[2 * i + 1]) == Some(data[i] as nat % 16));
    }
    assert(back =~= data);
}

/// Two data strings with the same rendered hash have the same digest.
pub proof fn sha384_hex_keeps_digest(a: Seq<u8>, b: Seq<u8>)
    requires
        sha384_hex_spec(a) == sha384_hex_spec(b),
    ensures
        sha384(a) == sha384(b),
{
    let p = "sha384:"@;
    assert(hex_text(sha384(a)) =~= sha384_hex_spec(a).skip(p.len() as int));
    assert(hex_text(sha384(b)) =~= sha384_hex_spec(b).skip(p.len() as int));
    hex_text_is_injective(sha384(a), sha384(b));
}

} // verus!
