//! Text and byte building blocks: decimal numbers, UTF-8 bytes, length
//! prefixes, and the comparisons that the rest of the library needs.
use vstd::prelude::*;

use crate::json;

pub mod laws;

verus! {

/// `str`'s `==` compares the two texts character for character.
pub assume_specification[ <str as PartialEq>::eq ](a: &str, b: &str) -> (r: bool)
    ensures
        r == (a@ == b@),
;

/// `String::push` appends one character at the end.
pub assume_specification[ String::push ](s: &mut String, c: char)
    ensures
        final(s)@ == old(s)@.push(c),
;

/// Whether two texts hold the same characters.
pub fn same(a: &str, b: &str) -> (r: bool)
    ensures
        r == (a@ == b@),
{
    a.eq(b)
}

/// The characters of an optional text.
pub open spec fn opt_view(o: Option<String>) -> Option<Seq<char>> {
    match o {
        Some(s) => Some(s@),
        None => None,
    }
}

/// The characters of each text of a list.
pub open spec fn views(v: Seq<String>) -> Seq<Seq<char>> {
    v.map_values(|s: String| s@)
}

/// Whether two optional texts are the same.
pub fn same_opt(a: &Option<String>, b: &Option<String>) -> (r: bool)
    ensures
        r == (opt_view(*a) == opt_view(*b)),
{
    match (a, b) {
        (Some(x), Some(y)) => same(x.as_str(), y.as_str()),
        (None, None) => true,
        _ => false,
    }
}

/// Whether `x` is one of the texts of `v`.
pub fn contains(v: &Vec<String>, x: &str) -> (r: bool)
    ensures
        r == views(v@).contains(x@),
{
    let mut i: usize = 0;
    while i < v.len()
        invariant
            i <= v@.len(),
            forall|j: int| 0 <= j < i ==> (#[trigger] v@[j])@ != x@,
        decreases v@.len() - i,
    {
        if same(v[i].as_str(), x) {
            assert(views(v@)[i as int] == x@);
            return true;
        }
        i = i + 1;
    }
    assert forall|j: int| 0 <= j < views(v@).len() implies views(v@)[j] != x@ by {
        assert(v@[j]@ != x@);
    }
    false
}

/// The UTF-8 bytes of a text.
pub open spec fn utf8(s: Seq<char>) -> Seq<u8> {
    vstd::utf8::encode_utf8(s)
}

/// The UTF-8 bytes of `s`.
pub fn bytes_of(s: &str) -> (r: Vec<u8>)
    ensures
        r@ == utf8(s@),
{
    let mut v: Vec<u8> = Vec::new();
    v.extend_from_slice(s.as_bytes());
    v
}

/// Appends the UTF-8 bytes of `s` to `out`.
pub fn push_utf8(out: &mut Vec<u8>, s: &str)
    ensures
        final(out)@ == old(out)@ + utf8(s@),
{
    out.extend_from_slice(s.as_bytes());
}

/// Appends `b` to `out`.
pub fn push_bytes(out: &mut Vec<u8>, b: &[u8])
    ensures
        final(out)@ == old(out)@ + b@,
{
    out.extend_from_slice(b);
}

/// UTF-8 loses nothing: texts with the same bytes are the same text.
pub proof fn utf8_is_injective(a: Seq<char>, b: Seq<char>)
    requires
        utf8(a) == utf8(b),
    ensures
        a == b,
{
    vstd::utf8::encode_utf8_decode_utf8(a);
    vstd::utf8::encode_utf8_decode_utf8(b);
}

/// The decimal digit for `d < 10`.
pub open spec fn digit(d: nat) -> char {
    (48 + d) as char
}

/// `n` in decimal, without leading zeros.
pub open spec fn decimal(n: nat) -> Seq<char>
    decreases n,
{
    if n < 10 {
        seq![digit(n)]
    } else {
        decimal(n / 10).push(digit(n % 10))
    }
}

/// `n` in decimal, filled with zeros on the left up to `width` characters.
pub open spec fn decimal_padded(n: nat, width: nat) -> Seq<char> {
    let d = decimal(n);
    if d.len() >= width {
        d
    } else {
        Seq::new((width - d.len()) as nat, |i: int| '0') + d
    }
}

/// `n` in decimal.
pub fn decimal_text(n: u64) -> (r: String)
    ensures
        r@ == decimal(n as nat),
    decreases n,
{
    if n < 10 {
        let mut s = String::new();
        s.push((48u8 + n as u8) as char);
        s
    } else {
        let mut s = decimal_text(n / 10);
        s.push((48u8 + (n % 10) as u8) as char);
        s
    }
}

/// `n` in lower-case hexadecimal, without leading zeros.
pub open spec fn hexadecimal(n: nat) -> Seq<char>
    decreases n,
{
    if n < 16 {
        seq![json::hex_digit(n)]
    } else {
        hexadecimal(n / 16).push(json::hex_digit(n % 16))
    }
}

fn push_hexadecimal(out: &mut String, n: u64)
    ensures
        final(out)@ == old(out)@ + hexadecimal(n as nat),
    decreases n,
{
    if n >= 16 {
        push_hexadecimal(out, n / 16);
    }
    let ghost front = out@;
    let d: u8 = (n % 16) as u8;
    let digit: u8 = if d < 10 {
        48 + d
    } else {
        87 + d
    };
    out.push(digit as char);
    assert(out@ =~= old(out)@ + hexadecimal(n as nat));
}

/// `n` as a hexadecimal number: `0x`, then its digits.
pub open spec fn hex_number(n: nat) -> Seq<char> {
    "0x"@ + hexadecimal(n)
}

/// `n` as a hexadecimal number: `0x`, then its digits.
pub fn hex_number_text(n: u64) -> (r: String)
    ensures
        r@ == hex_number(n as nat),
{
    let mut out = "0x".to_string();
    push_hexadecimal(&mut out, n);
    out
}

/// `n` as `width` bytes, the most significant first.
pub open spec fn be_bytes(n: nat, width: nat) -> Seq<u8>
    decreases width,
{
    if width == 0 {
        Seq::empty()
    } else {
        be_bytes(n / 256, (width - 1) as nat).push((n % 256) as u8)
    }
}

/// `n` as `width` bytes, the most significant first.
pub fn be_bytes_vec(n: u64, width: usize) -> (r: Vec<u8>)
    ensures
        r@ == be_bytes(n as nat, width as nat),
        r@.len() == width,
    decreases width,
{
    if width == 0 {
        Vec::new()
    } else {
        let mut v = be_bytes_vec(n / 256, width - 1);
        v.push((n % 256) as u8);
        v
    }
}

/// Whether `c` has the Unicode `White_Space` property.
pub open spec fn white_space(c: char) -> bool {
    let n = c as nat;
    ||| 9 <= n <= 13
    ||| n == 32
    ||| n == 0x85
    ||| n == 0xa0
    ||| n == 0x1680
    ||| 0x2000 <= n <= 0x200a
    ||| n == 0x2028
    ||| n == 0x2029
    ||| n == 0x202f
    ||| n == 0x205f
    ||| n == 0x3000
}

/// Whether `c` has the Unicode `White_Space` property.
pub fn is_white_space(c: char) -> (r: bool)
    ensures
        r == white_space(c),
{
    let n: u32 = c as u32;
    (9 <= n && n <= 13) || n == 32 || n == 0x85 || n == 0xa0 || n == 0x1680 || (0x2000 <= n && n
        <= 0x200a) || n == 0x2028 || n == 0x2029 || n == 0x202f || n == 0x205f || n == 0x3000
}

/// Nothing is left of `s` once white space is trimmed off.
pub open spec fn blank(s: Seq<char>) -> bool {
    forall|i: int| 0 <= i < s.len() ==> white_space(#[trigger] s[i])
}

/// Whether nothing is left of `s` once white space is trimmed off.
pub fn is_blank(s: &str) -> (r: bool)
    ensures
        r == blank(s@),
{
    for c in it: s.chars()
        invariant
            it.seq() == s@,
            forall|i: int| 0 <= i < it.index() ==> white_space(#[trigger] s@[i]),
    {
        if !is_white_space(c) {
            assert(s@[it.index() as int] == c);
            return false;
        }
    }
    true
}

/// An ASCII capital as its small letter; any other character as it stands.
pub open spec fn lower_char(c: char) -> char {
    if 65 <= c as nat <= 90 {
        (c as nat + 32) as char
    } else {
        c
    }
}

/// An ASCII capital as its small letter; any other character as it stands.
pub fn to_lower_char(c: char) -> (r: char)
    ensures
        r == lower_char(c),
{
    let n: u32 = c as u32;
    if 65 <= n && n <= 90 {
        (n as u8 + 32) as char
    } else {
        c
    }
}

/// A text with its ASCII capitals as small letters.
pub open spec fn lower(s: Seq<char>) -> Seq<char> {
    s.map_values(|c: char| lower_char(c))
}

/// A text with its ASCII capitals as small letters.
pub fn lower_text(s: &str) -> (r: String)
    ensures
        r@ == lower(s@),
{
    let mut out = String::new();
    for c in it: s.chars()
        invariant
            it.seq() == s@,
            out@.len() == it.index(),
            forall|i: int| 0 <= i < it.index() ==> #[trigger] out@[i] == lower_char(s@[i]),
    {
        assert(c == s@[it.index() as int]);
        out.push(to_lower_char(c));
    }
    assert(out@ =~= lower(s@));
    out
}

/// Whether `s` begins with `prefix`.
pub open spec fn has_prefix(s: Seq<char>, prefix: Seq<char>) -> bool {
    s.len() >= prefix.len() && s.take(prefix.len() as int) == prefix
}

/// Whether `s` begins with `prefix`.
pub fn starts_with(s: &str, prefix: &str) -> (r: bool)
    ensures
        r == has_prefix(s@, prefix@),
{
    let n: usize = char_count(prefix);
    if char_count(s) < n {
        false
    } else {
        let front = s.substring_char(0, n);
        assert(front@ =~= s@.take(n as int));
        same(front, prefix)
    }
}

/// Number of characters of a text, counted as Unicode scalar values.
pub fn char_count(s: &str) -> (r: usize)
    ensures
        r == s@.len(),
{
    s.unicode_len()
}

/// `n` in decimal, filled with zeros on the left up to `width` characters.
pub fn decimal_padded_text(n: u64, width: usize) -> (r: String)
    ensures
        r@ == decimal_padded(n as nat, width as nat),
{
    let d = decimal_text(n);
    let len: usize = char_count(d.as_str());
    let mut out = String::new();
    let mut i: usize = len;
    while i < width
        invariant
            len <= i,
            i <= width || i == len,
            out@ == Seq::new((i - len) as nat, |k: int| '0'),
        decreases width - i,
    {
        out.push('0');
        i = i + 1;
    }
    out.append(d.as_str());
    assert(len >= width ==> out@ =~= d@);
    out
}

/// What `str`'s `Debug` formatting shows of a text.
pub uninterp spec fn debug_form(s: Seq<char>) -> Seq<char>;

/// `<str as Debug>::fmt`: the text in double quotes, with escapes. Claimed only
/// that what is shown depends on the text alone; which characters are escaped,
/// and how, is left unsaid.
#[verifier::external_body]
pub(crate) fn debug_text(s: &str) -> (r: String)
    ensures
        r@ == debug_form(s@),
{
    format!("{:?}", s)
}

/// Two texts one after the other.
pub fn joined(a: &str, b: &str) -> (r: String)
    ensures
        r@ == a@ + b@,
{
    let mut out = a.to_string();
    out.append(b);
    out
}

/// Three names with a plus sign between them.
pub open spec fn plus_joined(a: Seq<char>, b: Seq<char>, c: Seq<char>) -> Seq<char> {
    a + "+"@ + b + "+"@ + c
}

/// A character of a name between plus signs: a plus sign and a percent sign are
/// written by their codes, any other character as it stands.
pub open spec fn name_char(c: char) -> Seq<char> {
    if c == '+' {
        "%2B"@
    } else if c == '%' {
        "%25"@
    } else {
        seq![c]
    }
}

/// A name written so that no plus sign is left in it.
pub open spec fn name_form(s: Seq<char>) -> Seq<char>
    decreases s.len(),
{
    if s.len() == 0 {
        Seq::empty()
    } else {
        name_char(s[0]) + name_form(s.drop_first())
    }
}

/// A name that is written as it stands.
pub open spec fn plain_name(s: Seq<char>) -> bool {
    !s.contains('+') && !s.contains('%')
}

/// Three names as one word, from which they can be read off again.
pub open spec fn names_form(a: Seq<char>, b: Seq<char>, c: Seq<char>) -> Seq<char> {
    plus_joined(name_form(a), name_form(b), name_form(c))
}

/// Appends a name to `out`, with no plus sign left in it.
fn push_name(out: &mut String, s: &str)
    ensures
        final(out)@ == old(out)@ + name_form(s@),
{
    let ghost all = s@;
    assert(all.skip(0) =~= all);
    for c in it: s.chars()
        invariant
            it.seq() == all,
            old(out)@ + name_form(all) == out@ + name_form(all.skip(it.index() as int)),
    {
        let ghost rest = all.skip(it.index() as int);
        let ghost before = out@;
        assert(c == rest[0]);
        assert(rest.drop_first() =~= all.skip(it.index() as int + 1));
        if c == '+' {
            out.append("%2B");
        } else if c == '%' {
            out.append("%25");
        } else {
            out.push(c);
            assert(out@ =~= before + name_char(c));
        }
        assert(before + name_form(rest) =~= out@ + name_form(rest.drop_first()));
    }
    assert(all.skip(all.len() as int).len() == 0);
    assert(out@ =~= old(out)@ + name_form(all));
}

/// Three names as one word, from which they can be read off again.
pub fn names_text(a: &str, b: &str, c: &str) -> (r: String)
    ensures
        r@ == names_form(a@, b@, c@),
        plain_name(a@) && plain_name(b@) && plain_name(c@) ==> r@ == plus_joined(a@, b@, c@),
{
    let mut out = String::new();
    push_name(&mut out, a);
    out.append("+");
    push_name(&mut out, b);
    out.append("+");
    push_name(&mut out, c);
    assert(out@ =~= names_form(a@, b@, c@));
    proof {
        plain_names_stand(a@, b@, c@);
    }
    out
}

proof fn plain_name_stands(s: Seq<char>)
    requires
        plain_name(s),
    ensures
        name_form(s) == s,
    decreases s.len(),
{
    if s.len() > 0 {
        let rest = s.drop_first();
        assert(s.contains(s[0]));
        assert forall|c: char| rest.contains(c) implies s.contains(c) by {
            let k = choose|k: int| 0 <= k < rest.len() && rest[k] == c;
            assert(s[k + 1] == c);
        }
        plain_name_stands(rest);
        assert(seq![s[0]] + rest =~= s);
    } else {
        assert(name_form(s) =~= s);
    }
}

/// Names without a plus or a percent sign are joined as they stand.
pub proof fn plain_names_stand(a: Seq<char>, b: Seq<char>, c: Seq<char>)
    ensures
        plain_name(a) && plain_name(b) && plain_name(c) ==> names_form(a, b, c) == plus_joined(
            a,
            b,
            c,
        ),
{
    if plain_name(a) && plain_name(b) && plain_name(c) {
        plain_name_stands(a);
        plain_name_stands(b);
        plain_name_stands(c);
    }
}

proof fn codes()
    ensures
        "+"@ == seq!['+'],
        "%2B"@ == seq!['%', '2', 'B'],
        "%25"@ == seq!['%', '2', '5'],
{
    reveal_strlit("+");
    reveal_strlit("%2B");
    reveal_strlit("%25");
    assert("+"@ =~= seq!['+']);
    assert("%2B"@ =~= seq!['%', '2', 'B']);
    assert("%25"@ =~= seq!['%', '2', '5']);
}

proof fn name_form_has_no_plus(s: Seq<char>)
    ensures
        !name_form(s).contains('+'),
    decreases s.len(),
{
    codes();
    if s.len() > 0 {
        let (head, tail) = (name_char(s[0]), name_form(s.drop_first()));
        name_form_has_no_plus(s.drop_first());
        let all = name_form(s);
        if all.contains('+') {
            let k = choose|k: int| 0 <= k < all.len() && all[k] == '+';
            if k >= head.len() {
                assert(tail[k - head.len()] == '+');
            } else {
                assert(head[k] == '+');
            }
        }
    }
}

/// A name can be read off its written form.
pub proof fn name_form_is_injective(a: Seq<char>, b: Seq<char>)
    requires
        name_form(a) == name_form(b),
    ensures
        a == b,
    decreases a.len(),
{
    codes();
    let (x, y) = (name_form(a), name_form(b));
    if a.len() == 0 || b.len() == 0 {
        assert(a.len() > 0 ==> x.len() > 0);
        assert(b.len() > 0 ==> y.len() > 0);
        assert(a =~= b);
    } else {
        let (p, q) = (name_char(a[0]), name_char(b[0]));
        assert(x[0] == p[0] && y[0] == q[0]);
        assert(p.len() == 3 ==> x[2] == p[2]);
        assert(q.len() == 3 ==> y[2] == q[2]);
        assert(a[0] == b[0]);
        assert(name_form(a.drop_first()) =~= x.skip(p.len() as int));
        assert(name_form(b.drop_first()) =~= y.skip(q.len() as int));
        name_form_is_injective(a.drop_first(), b.drop_first());
        assert(a =~= seq![a[0]] + a.drop_first());
        assert(b =~= seq![b[0]] + b.drop_first());
    }
}

/// What stands before the first `sep`, and what after it, can be read off.
pub proof fn first_separator_splits(a: Seq<char>, x: Seq<char>, b: Seq<char>, y: Seq<char>, sep: char)
    requires
        a + seq![sep] + x == b + seq![sep] + y,
        !a.contains(sep),
        !b.contains(sep),
    ensures
        a == b,
        x == y,
{
    let (l, r) = (a + seq![sep] + x, b + seq![sep] + y);
    assert(l[a.len() as int] == sep);
    assert(r[b.len() as int] == sep);
    if a.len() < b.len() {
        assert(b[a.len() as int] == r[a.len() as int]);
        assert(b.contains(sep));
    } else if b.len() < a.len() {
        assert(a[b.len() as int] == l[b.len() as int]);
        assert(a.contains(sep));
    }
    assert(a =~= l.take(a.len() as int));
    assert(b =~= r.take(b.len() as int));
    assert(x =~= l.skip(a.len() as int + 1));
    assert(y =~= r.skip(b.len() as int + 1));
}

/// The form of three names pins each of them, whatever characters they hold.
pub proof fn names_form_pins_names(
    a: Seq<char>,
    b: Seq<char>,
    c: Seq<char>,
    p: Seq<char>,
    q: Seq<char>,
    r: Seq<char>,
)
    requires
        names_form(a, b, c) == names_form(p, q, r),
    ensures
        a == p,
        b == q,
        c == r,
{
    codes();
    let (x, y, z) = (name_form(a), name_form(b), name_form(c));
    let (u, v, w) = (name_form(p), name_form(q), name_form(r));
    name_form_has_no_plus(a);
    name_form_has_no_plus(b);
    name_form_has_no_plus(p);
    name_form_has_no_plus(q);
    assert(plus_joined(x, y, z) =~= x + seq!['+'] + (y + seq!['+'] + z));
    assert(plus_joined(u, v, w) =~= u + seq!['+'] + (v + seq!['+'] + w));
    first_separator_splits(x, y + seq!['+'] + z, u, v + seq!['+'] + w, '+');
    first_separator_splits(y, z, v, w, '+');
    name_form_is_injective(a, p);
    name_form_is_injective(b, q);
    name_form_is_injective(c, r);
}

} // verus!
