//! What documents are for, stated over the calls that write them.
use vstd::prelude::*;

use crate::json;
use crate::json::indented;
use crate::json::unambiguous;
use crate::json::{Json, JsonValue};
use crate::text;

verus! {

/// The document has a member with this name and value.
pub open spec fn has_member(v: JsonValue, name: Seq<char>, x: JsonValue) -> bool {
    v is Object && exists|i: int|
        0 <= i < v->Object_0.len() && #[trigger] v->Object_0[i] == (name, x)
}

/// Documents that are written alike, in either form, are the same document, and
/// both forms of one document agree on that.
pub proof fn written_form_pins_the_document(
    a: &Json,
    b: &Json,
    ca: String,
    cb: String,
    pa: String,
    pb: String,
)
    requires
        call_ensures(Json::to_compact, (a,), ca),
        call_ensures(Json::to_compact, (b,), cb),
        call_ensures(Json::to_pretty, (a,), pa),
        call_ensures(Json::to_pretty, (b,), pb),
    ensures
        ca@ == cb@ <==> a@ == b@,
        pa@ == pb@ <==> a@ == b@,
{
    if ca@ == cb@ {
        unambiguous::compact_is_injective(a@, b@);
    }
    if pa@ == pb@ {
        indented::pretty_is_injective(a@, b@);
    }
}

/// A number is written as a numeral that is worth it, and the three words stand for
/// what they say.
pub proof fn plain_values_are_written_plainly(v: &Json, r: String)
    requires
        call_ensures(Json::to_compact, (v,), r),
    ensures
        v@ matches JsonValue::Num(n) ==> text::laws::numeral(r@, 10) && text::laws::worth(r@, 10)
            == n,
        v@ is Null ==> r@ == "null"@,
        v@ matches JsonValue::Bool(b) ==> r@ == if b {
            "true"@
        } else {
            "false"@
        },
{
    if let JsonValue::Num(n) = v@ {
        text::laws::decimal_reads_back(n);
    }
}

/// One more item is written behind the others, after a comma.
pub proof fn list_grows_at_its_end(
    a: &Json,
    b: &Json,
    item: &Json,
    x: String,
    y: String,
    z: String,
)
    requires
        call_ensures(Json::to_compact, (a,), x),
        call_ensures(Json::to_compact, (item,), y),
        call_ensures(Json::to_compact, (b,), z),
        a@ is List,
        b@ == JsonValue::List(a@->List_0.push(item@)),
    ensures
        a@->List_0.len() == 0 ==> x@ == seq!['[', ']'] && z@ == seq!['['] + y@ + seq![']'],
        a@->List_0.len() > 0 ==> z@ == x@.drop_last() + seq![','] + y@ + seq![']'],
{
    let (s, t) = (a@->List_0, b@->List_0);
    assert(t.drop_last() =~= s && t.last() == item@);
    if s.len() == 0 {
        assert(x@ =~= seq!['[', ']']);
        assert(t[0] == item@);
    } else {
        assert(x@.drop_last() =~= seq!['['] + json::compact_items(s));
        assert(z@ =~= x@.drop_last() + seq![','] + y@ + seq![']']);
    }
}

/// One more member is written behind the others, after a comma: its name, a colon
/// and its value.
pub proof fn object_grows_at_its_end(
    a: &Json,
    b: &Json,
    name: Seq<char>,
    item: &Json,
    x: String,
    y: String,
    z: String,
)
    requires
        call_ensures(Json::to_compact, (a,), x),
        call_ensures(Json::to_compact, (item,), y),
        call_ensures(Json::to_compact, (b,), z),
        a@ is Object,
        b@ == JsonValue::Object(a@->Object_0.push((name, item@))),
    ensures
        a@->Object_0.len() == 0 ==> x@ == seq!['{', '}'] && z@ == seq!['{'] + json::quote(name)
            + seq![':'] + y@ + seq!['}'],
        a@->Object_0.len() > 0 ==> z@ == x@.drop_last() + seq![','] + json::quote(name) + seq![':']
            + y@ + seq!['}'],
{
    let (s, t) = (a@->Object_0, b@->Object_0);
    assert(t.drop_last() =~= s && t.last() == (name, item@));
    if s.len() == 0 {
        assert(x@ =~= seq!['{', '}']);
        assert(t[0] == (name, item@));
        assert(z@ =~= seq!['{'] + json::quote(name) + seq![':'] + y@ + seq!['}']);
    } else {
        assert(x@.drop_last() =~= seq!['{'] + json::compact_members(s));
        assert(z@ =~= x@.drop_last() + seq![','] + json::quote(name) + seq![':'] + y@ + seq!['}']);
    }
}

} // verus!
