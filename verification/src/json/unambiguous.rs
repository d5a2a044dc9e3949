//! The compact form of a document determines the document, so a hash or a
//! signature over the compact form covers every value in it.
use vstd::prelude::*;

use crate::json;
use crate::json::JsonValue;
use crate::text;

verus! {

/// What may follow a value inside a document: nothing, a comma or a closing
/// bracket.
spec fn is_end(x: Seq<char>) -> bool {
    x.len() == 0 || x[0] == ',' || x[0] == ']' || x[0] == '}'
}

spec fn is_digit(c: char) -> bool {
    48 <= c as nat <= 57
}

/// Taking the same number of characters off two equal texts.
proof fn split_equal(a: Seq<char>, x: Seq<char>, b: Seq<char>, y: Seq<char>)
    requires
        a + x == b + y,
        a.len() == b.len(),
    ensures
        a == b,
        x == y,
{
    assert(a =~= (a + x).take(a.len() as int));
    assert(b =~= (b + y).take(b.len() as int));
    assert(x =~= (a + x).skip(a.len() as int));
    assert(y =~= (b + y).skip(b.len() as int));
}

// ---------------------------------------------------------------- numbers

/// The number that a run of decimal digits denotes.
spec fn value_of(d: Seq<char>) -> nat
    decreases d.len(),
{
    if d.len() == 0 {
        0
    } else {
        (10 * value_of(d.drop_last()) + (d.last() as nat - 48)) as nat
    }
}

proof fn decimal_digits(n: nat)
    ensures
        text::decimal(n).len() > 0,
        forall|i: int| 0 <= i < text::decimal(n).len() ==> is_digit(#[trigger] text::decimal(n)[i]),
        value_of(text::decimal(n)) == n,
    decreases n,
{
    let d = text::decimal(n);
    if n < 10 {
        assert(d.drop_last() =~= Seq::<char>::empty());
        assert(value_of(d.drop_last()) == 0);
    } else {
        decimal_digits(n / 10);
        assert(d.drop_last() =~= text::decimal(n / 10));
    }
}

/// A decimal number has no space and no quotation mark in it.
pub proof fn decimal_has_no_marks(n: nat)
    ensures
        forall|i: int|
            0 <= i < text::decimal(n).len() ==> (#[trigger] text::decimal(n)[i]) != ' '
                && text::decimal(n)[i] != '\n' && text::decimal(n)[i] != '"',
{
    decimal_digits(n);
    assert forall|i: int| 0 <= i < text::decimal(n).len() implies (#[trigger] text::decimal(n)[i])
        != ' ' && text::decimal(n)[i] != '\n' && text::decimal(n)[i] != '"' by {
        assert(is_digit(text::decimal(n)[i]));
    }
}

/// Decimal writing loses nothing.
pub proof fn decimal_is_injective(m: nat, n: nat)
    requires
        text::decimal(m) == text::decimal(n),
    ensures
        m == n,
{
    decimal_digits(m);
    decimal_digits(n);
}

proof fn numbers_apart(m: nat, x: Seq<char>, n: nat, y: Seq<char>)
    requires
        text::decimal(m) + x == text::decimal(n) + y,
        is_end(x),
        is_end(y),
    ensures
        m == n,
        x == y,
{
    let (a, b) = (text::decimal(m), text::decimal(n));
    decimal_digits(m);
    decimal_digits(n);
    assert((a + x).len() == (b + y).len());
    if a.len() < b.len() {
        assert((a + x)[a.len() as int] == x[0]);
        assert((b + y)[a.len() as int] == b[a.len() as int]);
        assert(is_digit(b[a.len() as int]));
    } else if b.len() < a.len() {
        assert((b + y)[b.len() as int] == y[0]);
        assert((a + x)[b.len() as int] == a[b.len() as int]);
        assert(is_digit(a[b.len() as int]));
    }
    split_equal(a, x, b, y);
}

// ---------------------------------------------------------------- strings

proof fn escape_char_apart(c: char, x: Seq<char>, d: char, y: Seq<char>)
    requires
        json::escape_char(c) + x == json::escape_char(d) + y,
    ensures
        c == d,
        x == y,
{
    let (a, b) = (json::escape_char(c), json::escape_char(d));
    assert((a + x)[0] == a[0] && (b + y)[0] == b[0]);
    assert(a.len() > 1 ==> (a + x)[1] == a[1]);
    assert(b.len() > 1 ==> (b + y)[1] == b[1]);
    assert(a.len() > 4 ==> (a + x)[4] == a[4] && (a + x)[5] == a[5]);
    assert(b.len() > 4 ==> (b + y)[4] == b[4] && (b + y)[5] == b[5]);
    assert(a.len() == b.len());
    assert(a.len() == 6 ==> {
        &&& json::hex_digit(c as nat / 16) == json::hex_digit(d as nat / 16)
        &&& json::hex_digit(c as nat % 16) == json::hex_digit(d as nat % 16)
    });
    assert(c == d);
    split_equal(a, x, b, y);
}

proof fn strings_apart(s: Seq<char>, x: Seq<char>, t: Seq<char>, y: Seq<char>)
    requires
        json::escape(s) + seq!['"'] + x == json::escape(t) + seq!['"'] + y,
    ensures
        s == t,
        x == y,
    decreases s.len(),
{
    let q = seq!['"'];
    if s.len() == 0 && t.len() == 0 {
        split_equal(json::escape(s) + q, x, json::escape(t) + q, y);
        assert(s =~= t);
    } else if s.len() == 0 {
        assert((json::escape(s) + q + x)[0] == '"');
        assert((json::escape(t) + q + y)[0] == json::escape_char(t[0])[0]);
    } else if t.len() == 0 {
        assert((json::escape(t) + q + y)[0] == '"');
        assert((json::escape(s) + q + x)[0] == json::escape_char(s[0])[0]);
    } else {
        let (u, v) = (json::escape(s.drop_first()), json::escape(t.drop_first()));
        assert(json::escape(s) + q + x =~= json::escape_char(s[0]) + (u + q + x));
        assert(json::escape(t) + q + y =~= json::escape_char(t[0]) + (v + q + y));
        escape_char_apart(s[0], u + q + x, t[0], v + q + y);
        strings_apart(s.drop_first(), x, t.drop_first(), y);
        assert(s =~= seq![s[0]] + s.drop_first());
        assert(t =~= seq![t[0]] + t.drop_first());
    }
}

proof fn quotes_apart(s: Seq<char>, x: Seq<char>, t: Seq<char>, y: Seq<char>)
    requires
        json::quote(s) + x == json::quote(t) + y,
    ensures
        s == t,
        x == y,
{
    let q = seq!['"'];
    let (a, b) = (json::escape(s) + q + x, json::escape(t) + q + y);
    assert(json::quote(s) + x =~= q + a);
    assert(json::quote(t) + y =~= q + b);
    split_equal(q, a, q, b);
    strings_apart(s, x, t, y);
}

// ----------------------------------------------------------------- values

/// The first character of a value's compact form.
proof fn first_char(v: JsonValue)
    ensures
        json::compact(v).len() > 0,
        match v {
            JsonValue::Null => json::compact(v)[0] == 'n',
            JsonValue::Bool(b) => json::compact(v)[0] == (if b {
                't'
            } else {
                'f'
            }),
            JsonValue::Num(_) => is_digit(json::compact(v)[0]),
            JsonValue::Text(_) => json::compact(v)[0] == '"',
            JsonValue::List(_) => json::compact(v)[0] == '[',
            JsonValue::Object(_) => json::compact(v)[0] == '{',
        },
{
    reveal_strlit("null");
    reveal_strlit("true");
    reveal_strlit("false");
    if let JsonValue::Num(n) = v {
        decimal_digits(n);
    }
}

/// The items from the front: the first one, then the others.
proof fn items_from_front(items: Seq<JsonValue>)
    requires
        items.len() > 1,
    ensures
        json::compact_items(items) == json::compact(items[0]) + seq![','] + json::compact_items(
            items.drop_first(),
        ),
    decreases items.len(),
{
    let rest = items.drop_first();
    if items.len() == 2 {
        assert(items.drop_last() =~= seq![items[0]]);
        assert(json::compact_items(items.drop_last()) == json::compact(items[0]));
        assert(rest.len() == 1 && rest[0] == items.last());
    } else {
        items_from_front(items.drop_last());
        assert(items.drop_last().drop_first() =~= rest.drop_last());
        assert(rest.last() == items.last());
        assert(json::compact_items(items) =~= json::compact(items[0]) + seq![',']
            + json::compact_items(rest));
    }
}

spec fn member(m: (Seq<char>, JsonValue)) -> Seq<char> {
    json::quote(m.0) + seq![':'] + json::compact(m.1)
}

/// The members from the front: the first one, then the others.
proof fn members_from_front(members: Seq<(Seq<char>, JsonValue)>)
    requires
        members.len() > 1,
    ensures
        json::compact_members(members) == member(members[0]) + seq![',']
            + json::compact_members(members.drop_first()),
    decreases members.len(),
{
    let rest = members.drop_first();
    if members.len() == 2 {
        assert(members.drop_last() =~= seq![members[0]]);
        assert(json::compact_members(members.drop_last()) == member(members[0]));
        assert(rest.len() == 1 && rest[0] == members.last());
    } else {
        members_from_front(members.drop_last());
        assert(members.drop_last().drop_first() =~= rest.drop_last());
        assert(rest.last() == members.last());
        assert(json::compact_members(members) =~= member(members[0]) + seq![',']
            + json::compact_members(rest));
    }
}

proof fn values_apart(a: JsonValue, x: Seq<char>, b: JsonValue, y: Seq<char>)
    requires
        json::compact(a) + x == json::compact(b) + y,
        is_end(x),
        is_end(y),
    ensures
        a == b,
        x == y,
    decreases a,
{
    first_char(a);
    first_char(b);
    assert((json::compact(a) + x)[0] == json::compact(a)[0]);
    assert((json::compact(b) + y)[0] == json::compact(b)[0]);
    match (a, b) {
        (JsonValue::Null, JsonValue::Null) => {
            split_equal(json::compact(a), x, json::compact(b), y);
        },
        (JsonValue::Bool(p), JsonValue::Bool(q)) => {
            assert(p == q);
            split_equal(json::compact(a), x, json::compact(b), y);
        },
        (JsonValue::Num(m), JsonValue::Num(n)) => {
            numbers_apart(m, x, n, y);
        },
        (JsonValue::Text(s), JsonValue::Text(t)) => {
            quotes_apart(s, x, t, y);
        },
        (JsonValue::List(s), JsonValue::List(t)) => {
            let (u, v) = (
                json::compact_items(s) + seq![']'] + x,
                json::compact_items(t) + seq![']'] + y,
            );
            assert(json::compact(a) + x =~= seq!['['] + u);
            assert(json::compact(b) + y =~= seq!['['] + v);
            split_equal(seq!['['], u, seq!['['], v);
            items_apart(s, x, t, y);
        },
        (JsonValue::Object(s), JsonValue::Object(t)) => {
            let (u, v) = (
                json::compact_members(s) + seq!['}'] + x,
                json::compact_members(t) + seq!['}'] + y,
            );
            assert(json::compact(a) + x =~= seq!['{'] + u);
            assert(json::compact(b) + y =~= seq!['{'] + v);
            split_equal(seq!['{'], u, seq!['{'], v);
            members_apart(s, x, t, y);
        },
        _ => {
            assert(false);
        },
    }
}

/// What follows the first item of a non-empty list.
spec fn after_item(items: Seq<JsonValue>, x: Seq<char>) -> Seq<char> {
    if items.len() == 1 {
        seq![']'] + x
    } else {
        seq![','] + (json::compact_items(items.drop_first()) + seq![']'] + x)
    }
}

proof fn items_apart(s: Seq<JsonValue>, x: Seq<char>, t: Seq<JsonValue>, y: Seq<char>)
    requires
        json::compact_items(s) + seq![']'] + x == json::compact_items(t) + seq![']'] + y,
    ensures
        s == t,
        x == y,
    decreases s,
{
    let (l, r) = (json::compact_items(s) + seq![']'] + x, json::compact_items(t) + seq![']'] + y);
    if s.len() > 1 {
        items_from_front(s);
    }
    if t.len() > 1 {
        items_from_front(t);
    }
    if s.len() > 0 {
        first_char(s[0]);
        assert(l =~= json::compact(s[0]) + after_item(s, x));
        assert(l[0] == json::compact(s[0])[0]);
    } else {
        assert(l[0] == ']');
    }
    if t.len() > 0 {
        first_char(t[0]);
        assert(r =~= json::compact(t[0]) + after_item(t, y));
        assert(r[0] == json::compact(t[0])[0]);
    } else {
        assert(r[0] == ']');
    }
    if s.len() == 0 {
        assert(s =~= t);
        split_equal(json::compact_items(s) + seq![']'], x, json::compact_items(t) + seq![']'], y);
    } else {
        values_apart(s[0], after_item(s, x), t[0], after_item(t, y));
        assert(s.len() == 1 <==> after_item(s, x)[0] == ']');
        assert(t.len() == 1 <==> after_item(t, y)[0] == ']');
        if s.len() == 1 {
            split_equal(seq![']'], x, seq![']'], y);
            assert(s =~= t);
        } else {
            let (u, v) = (
                json::compact_items(s.drop_first()) + seq![']'] + x,
                json::compact_items(t.drop_first()) + seq![']'] + y,
            );
            split_equal(seq![','], u, seq![','], v);
            items_apart(s.drop_first(), x, t.drop_first(), y);
            assert(s =~= seq![s[0]] + s.drop_first());
            assert(t =~= seq![t[0]] + t.drop_first());
        }
    }
}

/// What follows the first member of a non-empty object.
spec fn after_member(members: Seq<(Seq<char>, JsonValue)>, x: Seq<char>) -> Seq<char> {
    if members.len() == 1 {
        seq!['}'] + x
    } else {
        seq![','] + (json::compact_members(members.drop_first()) + seq!['}'] + x)
    }
}

/// The members and what closes the object, split behind the first member.
proof fn members_shape(members: Seq<(Seq<char>, JsonValue)>, x: Seq<char>)
    ensures
        ({
            let all = json::compact_members(members) + seq!['}'] + x;
            if members.len() == 0 {
                all[0] == '}'
            } else {
                &&& all == json::quote(members[0].0) + (seq![':'] + (json::compact(members[0].1)
                    + after_member(members, x)))
                &&& all[0] == '"'
                &&& is_end(after_member(members, x))
                &&& members.len() == 1 <==> after_member(members, x)[0] == '}'
            }
        }),
{
    let all = json::compact_members(members) + seq!['}'] + x;
    if members.len() > 1 {
        members_from_front(members);
    }
    if members.len() > 0 {
        assert(all =~= json::quote(members[0].0) + (seq![':'] + (json::compact(members[0].1)
            + after_member(members, x))));
    }
}

proof fn members_apart(
    s: Seq<(Seq<char>, JsonValue)>,
    x: Seq<char>,
    t: Seq<(Seq<char>, JsonValue)>,
    y: Seq<char>,
)
    requires
        json::compact_members(s) + seq!['}'] + x == json::compact_members(t) + seq!['}'] + y,
    ensures
        s == t,
        x == y,
    decreases s,
{
    members_shape(s, x);
    members_shape(t, y);
    if s.len() == 0 {
        assert(s =~= t);
        split_equal(
            json::compact_members(s) + seq!['}'],
            x,
            json::compact_members(t) + seq!['}'],
            y,
        );
    } else {
        let (u, v) = (
            json::compact(s[0].1) + after_member(s, x),
            json::compact(t[0].1) + after_member(t, y),
        );
        quotes_apart(s[0].0, seq![':'] + u, t[0].0, seq![':'] + v);
        split_equal(seq![':'], u, seq![':'], v);
        assert(decreases_to!(s => s[0]));
        assert(decreases_to!(s[0] => s[0].1));
        values_apart(s[0].1, after_member(s, x), t[0].1, after_member(t, y));
        if s.len() == 1 {
            split_equal(seq!['}'], x, seq!['}'], y);
            assert(s =~= t);
        } else {
            let (p, q) = (
                json::compact_members(s.drop_first()) + seq!['}'] + x,
                json::compact_members(t.drop_first()) + seq!['}'] + y,
            );
            split_equal(seq![','], p, seq![','], q);
            members_apart(s.drop_first(), x, t.drop_first(), y);
            assert(s =~= seq![s[0]] + s.drop_first());
            assert(t =~= seq![t[0]] + t.drop_first());
        }
    }
}

/// Two documents with the same compact form are the same document.
pub proof fn compact_is_injective(a: JsonValue, b: JsonValue)
    requires
        json::compact(a) == json::compact(b),
    ensures
        a == b,
{
    let e = Seq::<char>::empty();
    assert(json::compact(a) + e =~= json::compact(b) + e);
    values_apart(a, e, b, e);
}

/// A list of texts as a document pins each of the texts.
pub proof fn text_list_pins_texts(a: Seq<String>, b: Seq<String>)
    requires
        json::text_list(text::views(a)) == json::text_list(text::views(b)),
    ensures
        text::views(a) == text::views(b),
{
    let (x, y) = (text::views(a), text::views(b));
    let (p, q) = (json::text_list(x)->List_0, json::text_list(y)->List_0);
    assert(p.len() == x.len() && q.len() == y.len());
    assert forall|i: int| 0 <= i < x.len() implies x[i] == y[i] by {
        assert(p[i] == q[i]);
        assert(p[i] == JsonValue::Text(x[i]) && q[i] == JsonValue::Text(y[i]));
    }
    assert(x =~= y);
}

} // verus!
