//! The indented form of a document says the same as its compact form: it
//! differs only in spaces and line ends between the tokens. So it determines
//! the document too.
use vstd::prelude::*;

use crate::json;
use crate::json::unambiguous;
use crate::json::JsonValue;
use crate::text;

verus! {

/// Where a reader stands: between tokens, inside a string literal, or behind a
/// backslash in one.
enum Place {
    Between,
    Inside,
    Escaped,
}

/// Where the reader stands behind `c`.
spec fn behind(at: Place, c: char) -> Place {
    match at {
        Place::Between => if c == '"' {
            Place::Inside
        } else {
            Place::Between
        },
        Place::Inside => if c == '"' {
            Place::Between
        } else if c == '\\' {
            Place::Escaped
        } else {
            Place::Inside
        },
        Place::Escaped => Place::Inside,
    }
}

/// Where the reader stands behind all of `s`.
spec fn place_after(at: Place, s: Seq<char>) -> Place
    decreases s.len(),
{
    if s.len() == 0 {
        at
    } else {
        behind(place_after(at, s.drop_last()), s.last())
    }
}

spec fn is_space(c: char) -> bool {
    c == ' ' || c == '\n'
}

/// `s` without the spaces and line ends between tokens.
spec fn squeezed(at: Place, s: Seq<char>) -> Seq<char>
    decreases s.len(),
{
    if s.len() == 0 {
        Seq::empty()
    } else if place_after(at, s.drop_last()) is Between && is_space(s.last()) {
        squeezed(at, s.drop_last())
    } else {
        squeezed(at, s.drop_last()).push(s.last())
    }
}

proof fn over_concatenation(at: Place, a: Seq<char>, b: Seq<char>)
    ensures
        place_after(at, a + b) == place_after(place_after(at, a), b),
        squeezed(at, a + b) == squeezed(at, a) + squeezed(place_after(at, a), b),
    decreases b.len(),
{
    if b.len() == 0 {
        assert(a + b =~= a);
        assert(squeezed(at, a) + squeezed(place_after(at, a), b) =~= squeezed(at, a));
    } else {
        over_concatenation(at, a, b.drop_last());
        assert((a + b).drop_last() =~= a + b.drop_last());
        assert((a + b).last() == b.last());
        let (l, r) = (squeezed(at, a + b), squeezed(at, a) + squeezed(place_after(at, a), b));
        assert(l =~= r);
    }
}

/// `s` is whole tokens, and comes to `t` without the space between them.
spec fn comes_to(s: Seq<char>, t: Seq<char>) -> bool {
    place_after(Place::Between, s) is Between && squeezed(Place::Between, s) == t
}

proof fn joined(s: Seq<char>, t: Seq<char>, u: Seq<char>, v: Seq<char>)
    requires
        comes_to(s, t),
        comes_to(u, v),
    ensures
        comes_to(s + u, t + v),
{
    over_concatenation(Place::Between, s, u);
}

/// No space and no quotation mark: the text comes to itself.
proof fn solid(s: Seq<char>)
    requires
        forall|i: int| 0 <= i < s.len() ==> !is_space(#[trigger] s[i]) && s[i] != '"',
    ensures
        comes_to(s, s),
    decreases s.len(),
{
    if s.len() > 0 {
        solid(s.drop_last());
        assert(s =~= s.drop_last().push(s.last()));
    } else {
        assert(s =~= Seq::empty());
    }
}

/// Nothing but space comes to nothing.
proof fn empty_space(s: Seq<char>)
    requires
        forall|i: int| 0 <= i < s.len() ==> is_space(#[trigger] s[i]),
    ensures
        comes_to(s, Seq::empty()),
    decreases s.len(),
{
    if s.len() > 0 {
        empty_space(s.drop_last());
    }
}

/// An escaped character stays inside the literal and is kept.
proof fn escaped_char(c: char)
    ensures
        place_after(Place::Inside, json::escape_char(c)) is Inside,
        squeezed(Place::Inside, json::escape_char(c)) == json::escape_char(c),
{
    let e = json::escape_char(c);
    reveal_with_fuel(place_after, 7);
    reveal_with_fuel(squeezed, 7);
    if e.len() == 1 {
        assert(e.drop_last() =~= Seq::empty());
        assert(squeezed(Place::Inside, e) =~= e);
    } else if e.len() == 2 {
        let a = seq!['\\'];
        assert(e.drop_last() =~= a);
        assert(a.drop_last() =~= Seq::empty());
        assert(squeezed(Place::Inside, a) =~= a);
        assert(squeezed(Place::Inside, e) =~= e);
    } else {
        let h = json::hex_digit(c as nat / 16);
        let l = json::hex_digit(c as nat % 16);
        let a1 = seq!['\\'];
        let a2 = seq!['\\', 'u'];
        let a3 = seq!['\\', 'u', '0'];
        let a4 = seq!['\\', 'u', '0', '0'];
        let a5 = seq!['\\', 'u', '0', '0', h];
        assert(a1.drop_last() =~= Seq::empty());
        assert(a2.drop_last() =~= a1);
        assert(a3.drop_last() =~= a2);
        assert(a4.drop_last() =~= a3);
        assert(a5.drop_last() =~= a4);
        assert(e.drop_last() =~= a5);
        assert(place_after(Place::Inside, a1) is Escaped);
        assert(place_after(Place::Inside, a2) is Inside);
        assert(place_after(Place::Inside, a4) is Inside);
        assert(h != '"' && h != '\\' && l != '"' && l != '\\');
        assert(place_after(Place::Inside, a5) is Inside);
        assert(squeezed(Place::Inside, a1) =~= a1);
        assert(squeezed(Place::Inside, a2) =~= a2);
        assert(squeezed(Place::Inside, a3) =~= a3);
        assert(squeezed(Place::Inside, a4) =~= a4);
        assert(squeezed(Place::Inside, a5) =~= a5);
        assert(squeezed(Place::Inside, e) =~= e);
    }
}

proof fn escaped(s: Seq<char>)
    ensures
        place_after(Place::Inside, json::escape(s)) is Inside,
        squeezed(Place::Inside, json::escape(s)) == json::escape(s),
    decreases s.len(),
{
    if s.len() > 0 {
        escaped_char(s[0]);
        escaped(s.drop_first());
        over_concatenation(
            Place::Inside,
            json::escape_char(s[0]),
            json::escape(s.drop_first()),
        );
    }
}

/// A string literal is kept as it stands.
proof fn literal(s: Seq<char>)
    ensures
        comes_to(json::quote(s), json::quote(s)),
{
    let (q, e) = (seq!['"'], json::escape(s));
    reveal_with_fuel(place_after, 2);
    reveal_with_fuel(squeezed, 2);
    assert(q.drop_last() =~= Seq::empty());
    assert(squeezed(Place::Between, q) =~= q);
    assert(squeezed(Place::Inside, q) =~= q);
    escaped(s);
    over_concatenation(Place::Between, q, e);
    over_concatenation(Place::Between, q + e, q);
}

/// The brackets and separators of both forms.
proof fn marks()
    ensures
        comes_to("["@, seq!['[']),
        comes_to("]"@, seq![']']),
        comes_to("{"@, seq!['{']),
        comes_to("}"@, seq!['}']),
        comes_to("[]"@, seq!['['] + Seq::<char>::empty() + seq![']']),
        comes_to("{}"@, seq!['{'] + Seq::<char>::empty() + seq!['}']),
        comes_to("\n"@, Seq::empty()),
        comes_to(",\n"@, seq![',']),
        comes_to(": "@, seq![':']),
{
    reveal_strlit("[");
    reveal_strlit("]");
    reveal_strlit("{");
    reveal_strlit("}");
    reveal_strlit("[]");
    reveal_strlit("{}");
    reveal_strlit("\n");
    reveal_strlit(",\n");
    reveal_strlit(": ");
    solid("["@);
    solid("]"@);
    solid("{"@);
    solid("}"@);
    solid("[]"@);
    solid("{}"@);
    assert("["@ =~= seq!['[']);
    assert("]"@ =~= seq![']']);
    assert("{"@ =~= seq!['{']);
    assert("}"@ =~= seq!['}']);
    assert("[]"@ =~= seq!['['] + Seq::<char>::empty() + seq![']']);
    assert("{}"@ =~= seq!['{'] + Seq::<char>::empty() + seq!['}']);
    empty_space("\n"@);
    let (comma, colon, line, space) = (seq![','], seq![':'], seq!['\n'], seq![' ']);
    solid(comma);
    solid(colon);
    empty_space(line);
    empty_space(space);
    joined(comma, comma, line, Seq::empty());
    joined(colon, colon, space, Seq::empty());
    assert(",\n"@ =~= comma + line);
    assert(": "@ =~= colon + space);
    assert(comma + Seq::<char>::empty() =~= comma);
    assert(colon + Seq::<char>::empty() =~= colon);
}

spec fn spaces(indent: Seq<char>) -> bool {
    forall|i: int| 0 <= i < indent.len() ==> is_space(#[trigger] indent[i])
}

proof fn deeper(indent: Seq<char>)
    requires
        spaces(indent),
    ensures
        spaces(indent + "  "@),
{
    reveal_strlit("  ");
}

/// A value that is neither a list nor an object.
proof fn scalar(v: JsonValue)
    requires
        !(v is List),
        !(v is Object),
    ensures
        comes_to(json::compact(v), json::compact(v)),
{
    match v {
        JsonValue::Text(s) => {
            literal(s);
        },
        JsonValue::Num(n) => {
            unambiguous::decimal_has_no_marks(n);
            solid(text::decimal(n));
        },
        _ => {
            reveal_strlit("null");
            reveal_strlit("true");
            reveal_strlit("false");
            solid(json::compact(v));
        },
    }
}

proof fn value(v: JsonValue, indent: Seq<char>)
    requires
        spaces(indent),
    ensures
        comes_to(json::pretty(v, indent), json::compact(v)),
    decreases v, 0nat,
{
    let e = Seq::<char>::empty();
    marks();
    match v {
        JsonValue::List(list) => {
            if list.len() > 0 {
                let inner = indent + "  "@;
                deeper(indent);
                items(list, inner);
                empty_space(indent);
                let (p, c) = (json::pretty_items(list, inner), json::compact_items(list));
                joined("["@, seq!['['], p, c);
                joined("["@ + p, seq!['['] + c, "\n"@, e);
                joined("["@ + p + "\n"@, seq!['['] + c + e, indent, e);
                joined(
                    "["@ + p + "\n"@ + indent,
                    seq!['['] + c + e + e,
                    "]"@,
                    seq![']'],
                );
                assert(seq!['['] + c + e + e + seq![']'] =~= json::compact(v));
            } else {
                assert(json::compact_items(list) =~= e);
            }
        },
        JsonValue::Object(map) => {
            if map.len() > 0 {
                let inner = indent + "  "@;
                deeper(indent);
                members(map, inner);
                empty_space(indent);
                let (p, c) = (json::pretty_members(map, inner), json::compact_members(map));
                joined("{"@, seq!['{'], p, c);
                joined("{"@ + p, seq!['{'] + c, "\n"@, e);
                joined("{"@ + p + "\n"@, seq!['{'] + c + e, indent, e);
                joined(
                    "{"@ + p + "\n"@ + indent,
                    seq!['{'] + c + e + e,
                    "}"@,
                    seq!['}'],
                );
                assert(seq!['{'] + c + e + e + seq!['}'] =~= json::compact(v));
            } else {
                assert(json::compact_members(map) =~= e);
            }
        },
        _ => {
            scalar(v);
        },
    }
}

proof fn items(list: Seq<JsonValue>, indent: Seq<char>)
    requires
        spaces(indent),
        list.len() > 0,
    ensures
        comes_to(json::pretty_items(list, indent), json::compact_items(list)),
    decreases list, 1nat,
{
    let e = Seq::<char>::empty();
    marks();
    empty_space(indent);
    let (p, c) = (json::pretty(list.last(), indent), json::compact(list.last()));
    assert(decreases_to!(list => list.last()));
    value(list.last(), indent);
    if list.len() == 1 {
        joined("\n"@, e, indent, e);
        joined("\n"@ + indent, e + e, p, c);
        assert(e + e + c =~= c);
        assert(list[0] == list.last());
    } else {
        let (ps, cs) = (
            json::pretty_items(list.drop_last(), indent),
            json::compact_items(list.drop_last()),
        );
        items(list.drop_last(), indent);
        joined(ps, cs, ",\n"@, seq![',']);
        joined(ps + ",\n"@, cs + seq![','], indent, e);
        joined(ps + ",\n"@ + indent, cs + seq![','] + e, p, c);
        assert(cs + seq![','] + e + c =~= json::compact_items(list));
    }
}

proof fn members(map: Seq<(Seq<char>, JsonValue)>, indent: Seq<char>)
    requires
        spaces(indent),
        map.len() > 0,
    ensures
        comes_to(json::pretty_members(map, indent), json::compact_members(map)),
    decreases map, 1nat,
{
    let e = Seq::<char>::empty();
    marks();
    empty_space(indent);
    let k = json::quote(map.last().0);
    let (p, c) = (json::pretty(map.last().1, indent), json::compact(map.last().1));
    assert(decreases_to!(map => map.last()));
    assert(decreases_to!(map.last() => map.last().1));
    value(map.last().1, indent);
    literal(map.last().0);
    if map.len() == 1 {
        joined("\n"@, e, indent, e);
        joined("\n"@ + indent, e + e, k, k);
        joined("\n"@ + indent + k, e + e + k, ": "@, seq![':']);
        joined("\n"@ + indent + k + ": "@, e + e + k + seq![':'], p, c);
        assert(e + e + k + seq![':'] + c =~= k + seq![':'] + c);
        assert(map[0] == map.last());
    } else {
        let (ps, cs) = (
            json::pretty_members(map.drop_last(), indent),
            json::compact_members(map.drop_last()),
        );
        members(map.drop_last(), indent);
        joined(ps, cs, ",\n"@, seq![',']);
        joined(ps + ",\n"@, cs + seq![','], indent, e);
        joined(ps + ",\n"@ + indent, cs + seq![','] + e, k, k);
        joined(ps + ",\n"@ + indent + k, cs + seq![','] + e + k, ": "@, seq![':']);
        joined(
            ps + ",\n"@ + indent + k + ": "@,
            cs + seq![','] + e + k + seq![':'],
            p,
            c,
        );
        assert(cs + seq![','] + e + k + seq![':'] + c =~= json::compact_members(map));
    }
}

/// Two documents with the same indented form are the same document.
pub proof fn pretty_is_injective(a: JsonValue, b: JsonValue)
    requires
        json::pretty(a, Seq::empty()) == json::pretty(b, Seq::empty()),
    ensures
        a == b,
{
    value(a, Seq::empty());
    value(b, Seq::empty());
    unambiguous::compact_is_injective(a, b);
}

} // verus!
