//! What the line tools are for, stated over their calls.
use vstd::prelude::*;

use crate::lines;
use crate::text;

verus! {

/// Nothing but white space.
pub open spec fn spaces(s: Seq<char>) -> bool {
    forall|i: int|
        0 <= i < s.len() ==> text::laws::space_codes().contains(#[trigger] s[i] as u32)
}

/// `core` is what is left of `s` without the white space in front and at the end.
pub open spec fn core_of(s: Seq<char>, front: Seq<char>, core: Seq<char>, back: Seq<char>) -> bool {
    &&& s == front + core + back
    &&& spaces(front) && spaces(back)
    &&& core.len() > 0 ==> !text::laws::space_codes().contains(core[0] as u32)
        && !text::laws::space_codes().contains(core.last() as u32)
}

/// Trimming takes away white space only, from both ends, and as much as there is.
pub proof fn trimming_takes_the_outer_spaces(s: &str, r: String)
    requires
        call_ensures(lines::trim_text, (s,), r),
    ensures
        exists|front: Seq<char>, back: Seq<char>| #[trigger] core_of(s@, front, r@, back),
{
    trimmed_core(s@);
}

/// The trimmed text is the core of the text.
pub proof fn trimmed_core(s: Seq<char>)
    ensures
        exists|front: Seq<char>, back: Seq<char>| #[trigger]
            core_of(s, front, lines::trim(s), back),
{
    let front = front_spaces(s);
    let mid = lines::trim_start(s);
    let back = back_spaces(mid);
    let core = lines::trim_end(mid);
    assert(s =~= front + core + back);
    if core.len() > 0 {
        assert(core[0] == mid[0]);
        text::laws::space_by_code(core[0]);
        text::laws::space_by_code(core.last());
    }
    assert(lines::trim(s) == core);
    assert(core_of(s, front, lines::trim(s), back));
}

proof fn front_spaces(s: Seq<char>) -> (front: Seq<char>)
    ensures
        s == front + lines::trim_start(s),
        spaces(front),
        lines::trim_start(s).len() > 0 ==> !text::white_space(lines::trim_start(s)[0]),
    decreases s.len(),
{
    if s.len() > 0 && text::white_space(s[0]) {
        text::laws::space_by_code(s[0]);
        let f = front_spaces(s.drop_first());
        let front = seq![s[0]] + f;
        let rest = lines::trim_start(s.drop_first());
        assert(s =~= seq![s[0]] + s.drop_first());
        assert(front + rest =~= seq![s[0]] + (f + rest));
        assert forall|i: int| 0 <= i < front.len() implies text::laws::space_codes().contains(
            #[trigger] front[i] as u32,
        ) by {
            if i > 0 {
                assert(front[i] == f[i - 1]);
            }
        }
        front
    } else {
        assert(s =~= Seq::<char>::empty() + s);
        Seq::empty()
    }
}

proof fn back_spaces(s: Seq<char>) -> (back: Seq<char>)
    ensures
        s == lines::trim_end(s) + back,
        spaces(back),
        lines::trim_end(s).len() > 0 ==> !text::white_space(lines::trim_end(s).last()),
        lines::trim_end(s).len() > 0 ==> lines::trim_end(s)[0] == s[0],
    decreases s.len(),
{
    if s.len() > 0 && text::white_space(s.last()) {
        text::laws::space_by_code(s.last());
        let b = back_spaces(s.drop_last());
        let back = b.push(s.last());
        let rest = lines::trim_end(s.drop_last());
        assert(s =~= s.drop_last().push(s.last()));
        assert(rest + back =~= (rest + b).push(s.last()));
        assert forall|i: int| 0 <= i < back.len() implies text::laws::space_codes().contains(
            #[trigger] back[i] as u32,
        ) by {
            if i < b.len() {
                assert(back[i] == b[i]);
            }
        }
        back
    } else {
        assert(s =~= s + Seq::<char>::empty());
        Seq::empty()
    }
}

/// A text stands in another exactly where the other is something, the text, and
/// something.
pub proof fn found_text_stands_inside(s: &str, t: &str, r: bool)
    requires
        call_ensures(lines::contains_text, (s, t), r),
    ensures
        r <==> exists|a: Seq<char>, b: Seq<char>| s@ == #[trigger] (a + t@ + b),
{
    found_is_inside(s@, t@);
}

/// A text stands in another exactly where the other is something, the text, and
/// something.
pub proof fn found_is_inside(s: Seq<char>, t: Seq<char>)
    ensures
        lines::has_text(s, t) <==> exists|a: Seq<char>, b: Seq<char>| s == #[trigger] (a + t + b),
{
    if lines::has_text(s, t) {
        let i = choose|i: int| lines::found_at(s, t, i);
        let (a, b) = (s.take(i), s.skip(i + t.len()));
        assert(s =~= a + t + b);
        assert(s == a + t + b);
    }
    if exists|a: Seq<char>, b: Seq<char>| s == #[trigger] (a + t + b) {
        let (a, b) = choose|a: Seq<char>, b: Seq<char>| s == #[trigger] (a + t + b);
        assert(s.subrange(a.len() as int, (a.len() + t.len()) as int) =~= t);
        assert(lines::found_at(s, t, a.len() as int));
    }
}

/// What follows a prefix is the rest of the text, and there is one exactly where
/// the text begins with the prefix.
pub proof fn rest_follows_the_prefix(s: &str, prefix: &str, r: Option<String>)
    requires
        call_ensures(lines::strip_prefix, (s, prefix), r),
    ensures
        r matches Some(rest) ==> s@ == prefix@ + rest@,
        r is None ==> forall|rest: Seq<char>| s@ != #[trigger] (prefix@ + rest),
{
    if let Some(rest) = r {
        assert(s@ =~= prefix@ + rest@);
    } else {
        assert forall|rest: Seq<char>| s@ != #[trigger] (prefix@ + rest) by {
            if s@ == prefix@ + rest {
                assert(s@.take(prefix@.len() as int) =~= prefix@);
            }
        }
    }
}

/// Decimal digits, and at least one.
pub open spec fn digits(s: Seq<char>) -> bool {
    s.len() > 0 && forall|i: int| 0 <= i < s.len() ==> 48 <= #[trigger] s[i] as u32 <= 57
}

proof fn digits_are_worth(s: Seq<char>)
    requires
        lines::all_digits(s),
    ensures
        lines::digits_value(s) == text::laws::worth(s, 10),
    decreases s.len(),
{
    if s.len() > 0 {
        assert(48 <= s.last() as nat <= 57);
        assert(lines::all_digits(s.drop_last())) by {
            assert forall|i: int| 0 <= i < s.drop_last().len() implies 48 <= (
            #[trigger] s.drop_last()[i]) as nat <= 57 by {
                assert(s.drop_last()[i] == s[i]);
            }
        }
        digits_are_worth(s.drop_last());
    }
}

proof fn code(c: char)
    ensures
        c as u32 as nat == c as nat,
{
}

/// A number is read exactly where a text is decimal digits, with or without a plus
/// sign, that are worth no more than 32 bits hold; and then it is what they are
/// worth.
pub proof fn numbers_are_read_by_their_worth(s: &str, r: Option<u32>)
    requires
        call_ensures(lines::parse_number, (s,), r),
    ensures
        digits(s@) && text::laws::worth(s@, 10) <= u32::MAX ==> r is Some && r->0
            == text::laws::worth(s@, 10),
        s@.len() > 0 && s@[0] == '+' && digits(s@.drop_first()) && text::laws::worth(
            s@.drop_first(),
            10,
        ) <= u32::MAX ==> r is Some && r->0 == text::laws::worth(s@.drop_first(), 10),
        r is Some ==> digits(s@) || (s@.len() > 0 && s@[0] == '+' && digits(s@.drop_first())),
        digits(s@) && text::laws::worth(s@, 10) > u32::MAX ==> r is None,
{
    let d = if s@.len() > 0 && s@[0] == '+' {
        s@.drop_first()
    } else {
        s@
    };
    assert forall|i: int| 0 <= i < d.len() implies (48 <= (#[trigger] d[i]) as nat <= 57) == (48
        <= d[i] as u32 <= 57) by {
        code(d[i]);
    }
    if d.len() > 0 && lines::all_digits(d) {
        digits_are_worth(d);
    }
    if digits(s@) {
        assert(48 <= s@[0] as u32 <= 57);
        assert(s@[0] != '+');
        assert(lines::all_digits(d)) by {
            assert forall|i: int| 0 <= i < d.len() implies 48 <= (#[trigger] d[i]) as nat
                <= 57 by {
                code(d[i]);
            }
        }
        digits_are_worth(d);
    }
    if digits(d) {
        assert(lines::all_digits(d)) by {
            assert forall|i: int| 0 <= i < d.len() implies 48 <= (#[trigger] d[i]) as nat
                <= 57 by {
                code(d[i]);
            }
        }
        digits_are_worth(d);
    }
    if r is Some {
        assert(digits(d)) by {
            assert forall|i: int| 0 <= i < d.len() implies 48 <= #[trigger] d[i] as u32 <= 57 by {
                code(d[i]);
            }
        }
    }
}

/// `s` is a line, its ending and the rest, with `left` lines in all. The ending is a newline, or a carriage
/// return and a newline; the last line may have none, and then it is not empty.
pub open spec fn line_and_rest(s: Seq<char>, line: Seq<char>, rest: Seq<char>, left: nat) -> bool {
    ||| s == line + seq!['\n'] + rest && !(line.len() > 0 && line.last() == '\r')
    ||| s == line + seq!['\r', '\n'] + rest
    ||| left == 1 && rest.len() == 0 && s == line && s.len() > 0
}

/// The lines put together again, each with its own ending, give the text, and no
/// line holds a newline.
pub open spec fn rejoins(s: Seq<char>, ls: Seq<Seq<char>>) -> bool
    decreases ls.len(),
{
    if ls.len() == 0 {
        s.len() == 0
    } else {
        !ls[0].contains('\n') && exists|rest: Seq<char>| #[trigger]
            line_and_rest(s, ls[0], rest, ls.len()) && rejoins(rest, ls.drop_first())
    }
}

/// Splitting a text into lines loses nothing but the line endings.
pub proof fn lines_rejoin(s: &str, r: Vec<String>)
    requires
        call_ensures(lines::split_lines, (s,), r),
    ensures
        rejoins(s@, text::views(r@)),
{
    assert(s@.skip(0) =~= s@);
    lines_rejoin_from(s@, 0, 0);
}

proof fn lines_rejoin_from(s: Seq<char>, start: int, at: int)
    requires
        0 <= start <= at <= s.len(),
        forall|i: int| start <= i < at ==> #[trigger] s[i] != '\n',
    ensures
        rejoins(s.skip(start), lines::lines_from(s, start, at)),
    decreases s.len() - at,
{
    let ls = lines::lines_from(s, start, at);
    let all = s.skip(start);
    if at >= s.len() {
        if start < s.len() {
            let line = s.subrange(start, s.len() as int);
            assert(ls[0] == line);
            assert(all =~= line);
            let rest = Seq::<char>::empty();
            assert(ls.drop_first() =~= Seq::<Seq<char>>::empty());
            assert(rejoins(rest, ls.drop_first()));
            if line.contains('\n') {
                let i = choose|i: int| 0 <= i < line.len() && line[i] == '\n';
                assert(s[start + i] == '\n');
            }
            assert(line_and_rest(all, ls[0], rest, ls.len()));
        }
    } else if s[at] == '\n' {
        lines_rejoin_from(s, at + 1, at + 1);
        let raw = s.subrange(start, at);
        let line = lines::chomp(raw);
        let rest = s.skip(at + 1);
        assert(ls.drop_first() =~= lines::lines_from(s, at + 1, at + 1));
        assert(ls[0] == line);
        assert(rejoins(rest, ls.drop_first()));
        if line.contains('\n') {
            let i = choose|i: int| 0 <= i < line.len() && line[i] == '\n';
            assert(s[start + i] == '\n');
        }
        if raw.len() > 0 && raw.last() == '\r' {
            assert(all =~= line + seq!['\r', '\n'] + rest);
        } else {
            assert(all =~= line + seq!['\n'] + rest);
        }
        assert(line_and_rest(all, ls[0], rest, ls.len()));
    } else {
        lines_rejoin_from(s, start, at + 1);
    }
}

} // verus!
