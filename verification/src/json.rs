//! JSON documents: a value tree, its compact form (what gets hashed and
//! signed) and its indented form (what gets shown and stored).
use vstd::prelude::*;

use crate::text;

pub mod indented;
pub mod laws;
pub mod unambiguous;

verus! {

/// A JSON document. Object members keep the order in which they were added.
pub enum Json {
    Null,
    Bool(bool),
    Num(u64),
    Text(String),
    List(Vec<Json>),
    Object(Vec<(String, Json)>),
}

/// The mathematical content of a [`Json`].
pub enum JsonValue {
    Null,
    Bool(bool),
    Num(nat),
    Text(Seq<char>),
    List(Seq<JsonValue>),
    Object(Seq<(Seq<char>, JsonValue)>),
}

impl Json {
    /// The document's content.
    pub open spec fn view(&self) -> JsonValue
        decreases self,
    {
        match self {
            Json::Null => JsonValue::Null,
            Json::Bool(b) => JsonValue::Bool(*b),
            Json::Num(n) => JsonValue::Num(*n as nat),
            Json::Text(s) => JsonValue::Text(s@),
            Json::List(items) => JsonValue::List(
                Seq::new(
                    items@.len(),
                    |i: int|
                        if 0 <= i < items@.len() {
                            items@[i].view()
                        } else {
                            JsonValue::Null
                        },
                ),
            ),
            Json::Object(members) => JsonValue::Object(
                Seq::new(
                    members@.len(),
                    |i: int|
                        if 0 <= i < members@.len() {
                            (members@[i].0@, members@[i].1.view())
                        } else {
                            (Seq::<char>::empty(), JsonValue::Null)
                        },
                ),
            ),
        }
    }
}

// ---------------------------------------------------------------- strings

/// The lower-case hexadecimal digit for `d < 16`.
pub open spec fn hex_digit(d: nat) -> char {
    if d < 10 {
        (48 + d) as char
    } else {
        (87 + d) as char
    }
}

/// One character inside a JSON string literal.
pub open spec fn escape_char(c: char) -> Seq<char> {
    if c == '"' {
        seq!['\\', '"']
    } else if c == '\\' {
        seq!['\\', '\\']
    } else if c == '\n' {
        seq!['\\', 'n']
    } else if c == '\r' {
        seq!['\\', 'r']
    } else if c == '\t' {
        seq!['\\', 't']
    } else if c as nat == 8 {
        seq!['\\', 'b']
    } else if c as nat == 12 {
        seq!['\\', 'f']
    } else if (c as nat) < 32 {
        seq!['\\', 'u', '0', '0', hex_digit(c as nat / 16), hex_digit(c as nat % 16)]
    } else {
        seq![c]
    }
}

/// The characters of `s` inside a JSON string literal.
pub open spec fn escape(s: Seq<char>) -> Seq<char>
    decreases s.len(),
{
    if s.len() == 0 {
        Seq::empty()
    } else {
        escape_char(s[0]) + escape(s.drop_first())
    }
}

/// `s` as a JSON string literal.
pub open spec fn quote(s: Seq<char>) -> Seq<char> {
    seq!['"'] + escape(s) + seq!['"']
}

/// `serde_json::to_string` of a text. It is the JSON string literal: the text
/// between quotation marks, with the quotation mark, the backslash and the
/// control characters below U+0020 escaped and everything else as it stands.
#[verifier::external_body]
pub(crate) fn quoted(s: &str) -> (r: String)
    ensures
        r@ == quote(s@),
{
    serde_json::to_string(s).expect("a text always serialises")
}

// ---------------------------------------------------------------- compact

/// The compact form of a value: no space, members in order.
pub open spec fn compact(v: JsonValue) -> Seq<char>
    decreases v,
{
    match v {
        JsonValue::Null => "null"@,
        JsonValue::Bool(b) => if b {
            "true"@
        } else {
            "false"@
        },
        JsonValue::Num(n) => text::decimal(n),
        JsonValue::Text(s) => quote(s),
        JsonValue::List(items) => seq!['['] + compact_items(items) + seq![']'],
        JsonValue::Object(members) => seq!['{'] + compact_members(members) + seq!['}'],
    }
}

/// The items of a list, separated by commas.
pub open spec fn compact_items(items: Seq<JsonValue>) -> Seq<char>
    decreases items,
{
    if items.len() == 0 {
        Seq::empty()
    } else if items.len() == 1 {
        compact(items[0])
    } else {
        compact_items(items.drop_last()) + seq![','] + compact(items.last())
    }
}

/// The members of an object, separated by commas.
pub open spec fn compact_members(members: Seq<(Seq<char>, JsonValue)>) -> Seq<char>
    decreases members,
{
    if members.len() == 0 {
        Seq::empty()
    } else if members.len() == 1 {
        quote(members[0].0) + seq![':'] + compact(members[0].1)
    } else {
        compact_members(members.drop_last()) + seq![','] + (quote(members.last().0) + seq![':']
            + compact(members.last().1))
    }
}

// ----------------------------------------------------------------- pretty

/// The indented form of a value whose first line stands at `indent`: two
/// spaces per level, one item or member per line.
pub open spec fn pretty(v: JsonValue, indent: Seq<char>) -> Seq<char>
    decreases v,
{
    match v {
        JsonValue::List(items) => if items.len() == 0 {
            "[]"@
        } else {
            "["@ + pretty_items(items, indent + "  "@) + "\n"@ + indent + "]"@
        },
        JsonValue::Object(members) => if members.len() == 0 {
            "{}"@
        } else {
            "{"@ + pretty_members(members, indent + "  "@) + "\n"@ + indent + "}"@
        },
        _ => compact(v),
    }
}

/// The items of a list, each on a line of its own at `indent`.
pub open spec fn pretty_items(items: Seq<JsonValue>, indent: Seq<char>) -> Seq<char>
    decreases items,
{
    if items.len() == 0 {
        Seq::empty()
    } else if items.len() == 1 {
        "\n"@ + indent + pretty(items[0], indent)
    } else {
        pretty_items(items.drop_last(), indent) + ",\n"@ + indent + pretty(items.last(), indent)
    }
}

/// The members of an object, each on a line of its own at `indent`.
pub open spec fn pretty_members(
    members: Seq<(Seq<char>, JsonValue)>,
    indent: Seq<char>,
) -> Seq<char>
    decreases members,
{
    if members.len() == 0 {
        Seq::empty()
    } else if members.len() == 1 {
        "\n"@ + indent + quote(members[0].0) + ": "@ + pretty(members[0].1, indent)
    } else {
        pretty_members(members.drop_last(), indent) + ",\n"@ + indent + quote(members.last().0)
            + ": "@ + pretty(members.last().1, indent)
    }
}

impl Json {
    /// Appends the compact form to `out`.
    pub fn write_compact(&self, out: &mut String)
        ensures
            final(out)@ == old(out)@ + compact(self@),
        decreases self,
    {
        match self {
            Json::Null => {
                out.append("null");
            },
            Json::Bool(b) => {
                if *b {
                    out.append("true");
                } else {
                    out.append("false");
                }
            },
            Json::Num(n) => {
                out.append(text::decimal_text(*n).as_str());
            },
            Json::Text(s) => {
                out.append(quoted(s.as_str()).as_str());
            },
            Json::List(items) => {
                out.push('[');
                let ghost start = out@;
                let ghost view = self@->List_0;
                let mut i: usize = 0;
                while i < items.len()
                    invariant
                        i <= items@.len(),
                        *self == Json::List(*items),
                        view == self@->List_0,
                        view.len() == items@.len(),
                        forall|k: int| 0 <= k < items@.len() ==> view[k] == (#[trigger] items@[k])@,
                        out@ == start + compact_items(view.take(i as int)),
                    decreases items@.len() - i,
                {
                    if i > 0 {
                        out.push(',');
                    }
                    let ghost before = view.take(i as int);
                    proof {
                        assert(view.take(i as int + 1).drop_last() =~= before);
                        assert(view.take(i as int + 1).last() == items@[i as int]@);
                        assert(decreases_to!(self => items@[i as int]));
                    }
                    items[i].write_compact(out);
                    assert(out@ =~= start + compact_items(view.take(i as int + 1)));
                    i = i + 1;
                }
                out.push(']');
                assert(view.take(i as int) =~= view);
                assert(out@ =~= old(out)@ + compact(self@));
            },
            Json::Object(members) => {
                out.push('{');
                let ghost start = out@;
                let ghost view = self@->Object_0;
                let mut i: usize = 0;
                while i < members.len()
                    invariant
                        i <= members@.len(),
                        *self == Json::Object(*members),
                        view == self@->Object_0,
                        view.len() == members@.len(),
                        forall|k: int|
                            0 <= k < members@.len() ==> view[k] == (
                                (#[trigger] members@[k]).0@,
                                members@[k].1@,
                            ),
                        out@ == start + compact_members(view.take(i as int)),
                    decreases members@.len() - i,
                {
                    if i > 0 {
                        out.push(',');
                    }
                    let ghost before = view.take(i as int);
                    proof {
                        assert(view.take(i as int + 1).drop_last() =~= before);
                        assert(view.take(i as int + 1).last() == (
                            members@[i as int].0@,
                            members@[i as int].1@,
                        ));
                        assert(decreases_to!(self => members@[i as int]));
                        assert(decreases_to!(members@[i as int] => members@[i as int].1));
                    }
                    out.append(quoted(members[i].0.as_str()).as_str());
                    out.push(':');
                    members[i].1.write_compact(out);
                    assert(out@ =~= start + compact_members(view.take(i as int + 1)));
                    i = i + 1;
                }
                out.push('}');
                assert(view.take(i as int) =~= view);
                assert(out@ =~= old(out)@ + compact(self@));
            },
        }
    }

    /// The compact form.
    pub fn to_compact(&self) -> (r: String)
        ensures
            r@ == compact(self@),
    {
        let mut out = String::new();
        self.write_compact(&mut out);
        assert(out@ =~= compact(self@));
        out
    }

    /// Appends the indented form to `out`.
    pub fn write_pretty(&self, indent: &str, out: &mut String)
        ensures
            final(out)@ == old(out)@ + pretty(self@, indent@),
        decreases self,
    {
        match self {
            Json::List(items) => {
                let ghost view = self@->List_0;
                if items.len() == 0 {
                    out.append("[]");
                    assert(view.len() == 0);
                } else {
                    out.append("[");
                    let mut inner = indent.to_string();
                    inner.append("  ");
                    let ghost start = out@;
                    let mut i: usize = 0;
                    while i < items.len()
                        invariant
                            i <= items@.len(),
                            *self == Json::List(*items),
                            view == self@->List_0,
                            view.len() == items@.len(),
                            forall|k: int|
                                0 <= k < items@.len() ==> view[k] == (#[trigger] items@[k])@,
                            out@ == start + pretty_items(view.take(i as int), inner@),
                        decreases items@.len() - i,
                    {
                        if i > 0 {
                            out.append(",\n");
                        } else {
                            out.append("\n");
                        }
                        let ghost before = view.take(i as int);
                        proof {
                            assert(view.take(i as int + 1).drop_last() =~= before);
                            assert(view.take(i as int + 1).last() == items@[i as int]@);
                            assert(decreases_to!(self => items@[i as int]));
                        }
                        out.append(inner.as_str());
                        items[i].write_pretty(inner.as_str(), out);
                        assert(out@ =~= start + pretty_items(view.take(i as int + 1), inner@));
                        i = i + 1;
                    }
                    out.append("\n");
                    out.append(indent);
                    out.append("]");
                    assert(view.take(i as int) =~= view);
                    assert(out@ =~= old(out)@ + pretty(self@, indent@));
                }
            },
            Json::Object(members) => {
                let ghost view = self@->Object_0;
                if members.len() == 0 {
                    out.append("{}");
                    assert(view.len() == 0);
                } else {
                    out.append("{");
                    let mut inner = indent.to_string();
                    inner.append("  ");
                    let ghost start = out@;
                    let mut i: usize = 0;
                    while i < members.len()
                        invariant
                            i <= members@.len(),
                            *self == Json::Object(*members),
                            view == self@->Object_0,
                            view.len() == members@.len(),
                            forall|k: int|
                                0 <= k < members@.len() ==> view[k] == (
                                    (#[trigger] members@[k]).0@,
                                    members@[k].1@,
                                ),
                            out@ == start + pretty_members(view.take(i as int), inner@),
                        decreases members@.len() - i,
                    {
                        if i > 0 {
                            out.append(",\n");
                        } else {
                            out.append("\n");
                        }
                        let ghost before = view.take(i as int);
                        proof {
                            assert(view.take(i as int + 1).drop_last() =~= before);
                            assert(view.take(i as int + 1).last() == (
                                members@[i as int].0@,
                                members@[i as int].1@,
                            ));
                            assert(decreases_to!(self => members@[i as int]));
                            assert(decreases_to!(members@[i as int] => members@[i as int].1));
                        }
                        out.append(inner.as_str());
                        out.append(quoted(members[i].0.as_str()).as_str());
                        out.append(": ");
                        members[i].1.write_pretty(inner.as_str(), out);
                        assert(out@ =~= start + pretty_members(view.take(i as int + 1), inner@));
                        i = i + 1;
                    }
                    out.append("\n");
                    out.append(indent);
                    out.append("}");
                    assert(view.take(i as int) =~= view);
                    assert(out@ =~= old(out)@ + pretty(self@, indent@));
                }
            },
            _ => {
                self.write_compact(out);
            },
        }
    }

    /// The indented form.
    pub fn to_pretty(&self) -> (r: String)
        ensures
            r@ == pretty(self@, Seq::empty()),
    {
        let mut out = String::new();
        self.write_pretty("", &mut out);
        proof {
            reveal_strlit("");
            assert(""@ =~= Seq::<char>::empty());
        }
        assert(out@ =~= pretty(self@, Seq::empty()));
        out
    }
}

// --------------------------------------------------------------- building

/// A text value.
pub fn text_value(s: &str) -> (r: Json)
    ensures
        r@ == JsonValue::Text(s@),
{
    Json::Text(s.to_string())
}

/// The content of an optional text: `null` when there is none.
pub open spec fn opt_text(o: Option<Seq<char>>) -> JsonValue {
    match o {
        Some(s) => JsonValue::Text(s),
        None => JsonValue::Null,
    }
}

/// The content of a list of texts.
pub open spec fn text_list(items: Seq<Seq<char>>) -> JsonValue {
    JsonValue::List(items.map_values(|s: Seq<char>| JsonValue::Text(s)))
}

/// An object under construction.
pub struct JsonObject {
    pub members: Vec<(String, Json)>,
}

impl View for JsonObject {
    type V = Seq<(Seq<char>, JsonValue)>;

    open spec fn view(&self) -> Seq<(Seq<char>, JsonValue)> {
        self.members@.map_values(|m: (String, Json)| (m.0@, m.1@))
    }
}

impl JsonObject {
    /// No members.
    pub fn new() -> (r: Self)
        ensures
            r@ == Seq::<(Seq<char>, JsonValue)>::empty(),
    {
        let r = JsonObject { members: Vec::new() };
        assert(r@ =~= Seq::empty());
        r
    }

    /// Adds a member at the end.
    pub fn put(&mut self, key: &str, value: Json)
        ensures
            final(self)@ == old(self)@.push((key@, value@)),
    {
        let ghost v = value@;
        self.members.push((key.to_string(), value));
        assert(self@ =~= old(self)@.push((key@, v)));
    }

    /// Adds a text member.
    pub fn put_text(&mut self, key: &str, value: &str)
        ensures
            final(self)@ == old(self)@.push((key@, JsonValue::Text(value@))),
    {
        self.put(key, text_value(value));
    }

    /// Adds a number member.
    pub fn put_num(&mut self, key: &str, value: u64)
        ensures
            final(self)@ == old(self)@.push((key@, JsonValue::Num(value as nat))),
    {
        self.put(key, Json::Num(value));
    }

    /// Adds a truth value member.
    pub fn put_bool(&mut self, key: &str, value: bool)
        ensures
            final(self)@ == old(self)@.push((key@, JsonValue::Bool(value))),
    {
        self.put(key, Json::Bool(value));
    }

    /// Adds a text member, or `null` when there is none.
    pub fn put_opt_text(&mut self, key: &str, value: &Option<String>)
        ensures
            final(self)@ == old(self)@.push((key@, opt_text(text::opt_view(*value)))),
    {
        match value {
            Some(s) => self.put_text(key, s.as_str()),
            None => self.put(key, Json::Null),
        }
    }

    /// The finished object.
    pub fn finish(self) -> (r: Json)
        ensures
            r@ == JsonValue::Object(self@),
    {
        let ghost v = self@;
        let r = Json::Object(self.members);
        assert(r@->Object_0 =~= v);
        r
    }
}

/// A list of values.
pub fn list_value(items: Vec<Json>) -> (r: Json)
    ensures
        r@ == JsonValue::List(items@.map_values(|j: Json| j@)),
{
    let ghost v = items@.map_values(|j: Json| j@);
    let r = Json::List(items);
    assert(r@->List_0 =~= v);
    r
}

/// A list of texts.
pub fn text_list_value(items: &Vec<String>) -> (r: Json)
    ensures
        r@ == text_list(text::views(items@)),
{
    let mut out: Vec<Json> = Vec::new();
    let mut i: usize = 0;
    while i < items.len()
        invariant
            i <= items@.len(),
            out@.len() == i,
            forall|k: int| 0 <= k < i ==> (#[trigger] out@[k])@ == JsonValue::Text(items@[k]@),
        decreases items@.len() - i,
    {
        out.push(text_value(items[i].as_str()));
        i = i + 1;
    }
    let ghost done = out@;
    let r = list_value(out);
    assert(r@->List_0 =~= text_list(text::views(items@))->List_0);
    r
}

} // verus!
