//! What digest texts are for, stated over the calls that make them.
use vstd::prelude::*;

use crate::capsule;
use crate::control::plane;
use crate::json;
use crate::json::Json;
use crate::net;
use crate::primitives;
use crate::receipts::chain;
use crate::text;

verus! {

/// A digest text is the name of the hash, a colon and two hexadecimal digits for
/// each of the 48 bytes of the digest.
pub proof fn digest_text_shows_the_digest(data: &[u8], r: String, i: int)
    requires
        call_ensures(primitives::sha384_hex, (data,), r),
        0 <= i < 48,
    ensures
        r@.len() == 103,
        r@.take(7) == "sha384:"@,
        text::laws::digit_worth(r@[7 + 2 * i]) * 16 + text::laws::digit_worth(r@[8 + 2 * i])
            == primitives::sha384(data@)[i],
{
    reveal_strlit("sha384:");
    let d = primitives::sha384(data@);
    let h = primitives::hex_text(d);
    assert("sha384:"@.len() == 7);
    assert(d.len() == 48);
    assert(r@.take(7) =~= "sha384:"@);
    assert((2 * i) / 2 == i && (2 * i) % 2 == 0);
    assert((2 * i + 1) / 2 == i && (2 * i + 1) % 2 == 1);
    assert(r@[7 + 2 * i] == h[2 * i]);
    assert(r@[8 + 2 * i] == h[2 * i + 1]);
    assert(h[2 * i] == json::hex_digit(d[i] as nat / 16));
    assert(h[2 * i + 1] == json::hex_digit(d[i] as nat % 16));
}

/// Every part of the library has the same digest text for the same bytes.
pub proof fn digest_texts_agree(data: &[u8], a: String, b: String, c: String, d: String)
    requires
        call_ensures(primitives::sha384_hex, (data,), a),
        call_ensures(net::net_hash, (data,), b),
        call_ensures(capsule::hash_hex, (data,), c),
        call_ensures(plane::sha384_hex, (data,), d),
    ensures
        a@ == b@ && a@ == c@ && a@ == d@,
{
}

/// A document's hash is the digest text of its compact form.
pub proof fn document_hash_is_of_the_compact_form(
    d: &Json,
    compact: String,
    bytes: &[u8],
    r: String,
    h: String,
)
    requires
        call_ensures(chain::hash_document, (d,), r),
        call_ensures(Json::to_compact, (d,), compact),
        bytes@ == text::utf8(compact@),
        call_ensures(primitives::sha384_hex, (bytes,), h),
    ensures
        r@ == h@,
{
}

} // verus!
