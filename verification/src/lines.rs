//! Reading plain text reports: lines, trimming, searching, and small numbers.
use vstd::prelude::*;

use crate::text;

pub mod laws;

verus! {

/// The characters of a text.
pub fn chars_of(s: &str) -> (r: Vec<char>)
    ensures
        r@ == s@,
{
    let mut out: Vec<char> = Vec::new();
    for c in it: s.chars()
        invariant
            it.seq() == s@,
            out@ == s@.take(it.index() as int),
    {
        assert(c == s@[it.index() as int]);
        out.push(c);
        assert(out@ =~= s@.take(it.index() as int + 1));
    }
    assert(out@ =~= s@);
    out
}

/// The text of the characters from `lo` up to `hi`.
pub fn text_between(v: &Vec<char>, lo: usize, hi: usize) -> (r: String)
    requires
        lo <= hi <= v@.len(),
    ensures
        r@ == v@.subrange(lo as int, hi as int),
{
    let mut out = String::new();
    let mut i: usize = lo;
    while i < hi
        invariant
            lo <= i <= hi <= v@.len(),
            out@ == v@.subrange(lo as int, i as int),
        decreases hi - i,
    {
        out.push(v[i]);
        i = i + 1;
        assert(out@ =~= v@.subrange(lo as int, i as int));
    }
    out
}

/// A text without the white space in front.
pub open spec fn trim_start(s: Seq<char>) -> Seq<char>
    decreases s.len(),
{
    if s.len() > 0 && text::white_space(s[0]) {
        trim_start(s.drop_first())
    } else {
        s
    }
}

/// A text without the white space at the end.
pub open spec fn trim_end(s: Seq<char>) -> Seq<char>
    decreases s.len(),
{
    if s.len() > 0 && text::white_space(s.last()) {
        trim_end(s.drop_last())
    } else {
        s
    }
}

/// A text without the white space in front and at the end.
pub open spec fn trim(s: Seq<char>) -> Seq<char> {
    trim_end(trim_start(s))
}

/// A text without the white space in front and at the end.
pub fn trim_text(s: &str) -> (r: String)
    ensures
        r@ == trim(s@),
{
    let v = chars_of(s);
    let mut lo: usize = 0;
    assert(v@.skip(0) =~= v@);
    while lo < v.len() && text::is_white_space(v[lo])
        invariant
            lo <= v@.len(),
            trim_start(v@) == trim_start(v@.skip(lo as int)),
        decreases v@.len() - lo,
    {
        assert(v@.skip(lo as int).drop_first() =~= v@.skip(lo as int + 1));
        lo = lo + 1;
    }
    let ghost rest = v@.skip(lo as int);
    let mut hi: usize = v.len();
    assert(rest =~= v@.subrange(lo as int, hi as int));
    while hi > lo && text::is_white_space(v[hi - 1])
        invariant
            lo <= hi <= v@.len(),
            trim_end(rest) == trim_end(v@.subrange(lo as int, hi as int)),
        decreases hi,
    {
        assert(v@.subrange(lo as int, hi as int).drop_last() =~= v@.subrange(
            lo as int,
            hi as int - 1,
        ));
        hi = hi - 1;
    }
    text_between(&v, lo, hi)
}

/// A line without the carriage return in front of its end.
pub open spec fn chomp(s: Seq<char>) -> Seq<char> {
    if s.len() > 0 && s.last() == '\r' {
        s.drop_last()
    } else {
        s
    }
}

/// The lines of a text: each ends at a newline, or at a carriage return and a
/// newline; the last one need not end.
pub open spec fn lines(s: Seq<char>) -> Seq<Seq<char>> {
    lines_from(s, 0, 0)
}

/// The lines from `start` on, where none ends before `at`.
pub open spec fn lines_from(s: Seq<char>, start: int, at: int) -> Seq<Seq<char>>
    decreases s.len() - at,
{
    if at >= s.len() {
        if start < s.len() {
            seq![s.subrange(start, s.len() as int)]
        } else {
            Seq::empty()
        }
    } else if s[at] == '\n' {
        seq![chomp(s.subrange(start, at))] + lines_from(s, at + 1, at + 1)
    } else {
        lines_from(s, start, at + 1)
    }
}

/// The lines of a text.
pub fn split_lines(s: &str) -> (r: Vec<String>)
    ensures
        text::views(r@) == lines(s@),
{
    let v = chars_of(s);
    let mut out: Vec<String> = Vec::new();
    let mut start: usize = 0;
    let mut at: usize = 0;
    assert(text::views(out@) + lines_from(v@, 0, 0) =~= lines(v@));
    while at < v.len()
        invariant
            start <= at <= v@.len(),
            text::views(out@) + lines_from(v@, start as int, at as int) == lines(v@),
        decreases v@.len() - at,
    {
        if v[at] == '\n' {
            let ghost before = text::views(out@);
            let mut end: usize = at;
            if end > start && v[end - 1] == '\r' {
                end = end - 1;
            }
            let line = text_between(&v, start, end);
            assert(line@ =~= chomp(v@.subrange(start as int, at as int)));
            out.push(line);
            assert(text::views(out@) =~= before.push(line@));
            assert(before + lines_from(v@, start as int, at as int) =~= text::views(out@)
                + lines_from(v@, at as int + 1, at as int + 1));
            start = at + 1;
        }
        at = at + 1;
    }
    if start < v.len() {
        let ghost before = text::views(out@);
        let line = text_between(&v, start, v.len());
        out.push(line);
        assert(text::views(out@) =~= before.push(line@));
        assert(text::views(out@) =~= lines(v@));
    } else {
        assert(text::views(out@) =~= lines(v@));
    }
    out
}

/// `t` stands in `s` at `i`.
pub open spec fn found_at(s: Seq<char>, t: Seq<char>, i: int) -> bool {
    0 <= i && i + t.len() <= s.len() && s.subrange(i, i + t.len()) == t
}

/// `t` stands somewhere in `s`.
pub open spec fn has_text(s: Seq<char>, t: Seq<char>) -> bool {
    exists|i: int| found_at(s, t, i)
}

/// Whether `t` stands somewhere in `s`.
pub fn contains_text(s: &str, t: &str) -> (r: bool)
    ensures
        r == has_text(s@, t@),
{
    let v = chars_of(s);
    let w = chars_of(t);
    if w.len() > v.len() {
        assert(!has_text(s@, t@));
        return false;
    }
    let mut i: usize = 0;
    while i <= v.len() - w.len()
        invariant
            w@.len() <= v@.len() <= usize::MAX,
            i <= v@.len() - w@.len() + 1,
            v@ == s@,
            w@ == t@,
            forall|k: int| 0 <= k < i ==> !found_at(s@, t@, k),
        decreases v@.len() - i + 1,
    {
        let mut j: usize = 0;
        while j < w.len() && v[i + j] == w[j]
            invariant
                i + w@.len() <= v@.len() <= usize::MAX,
                j <= w@.len(),
                forall|k: int| 0 <= k < j ==> v@[i + k] == w@[k],
            decreases w@.len() - j,
        {
            j = j + 1;
        }
        if j == w.len() {
            assert(v@.subrange(i as int, i + w@.len()) =~= w@);
            assert(found_at(s@, t@, i as int));
            return true;
        }
        assert(!found_at(s@, t@, i as int)) by {
            if found_at(s@, t@, i as int) {
                assert(v@.subrange(i as int, i + w@.len())[j as int] == v@[i + j]);
            }
        }
        if i == v.len() - w.len() {
            assert forall|k: int| !found_at(s@, t@, k) by {}
            return false;
        }
        i = i + 1;
    }
    false
}

/// What follows `prefix` in `s`.
pub open spec fn after_prefix(s: Seq<char>, prefix: Seq<char>) -> Option<Seq<char>> {
    if text::has_prefix(s, prefix) {
        Some(s.skip(prefix.len() as int))
    } else {
        None
    }
}

/// What follows `prefix` in `s`.
pub fn strip_prefix(s: &str, prefix: &str) -> (r: Option<String>)
    ensures
        text::opt_view(r) == after_prefix(s@, prefix@),
{
    if text::starts_with(s, prefix) {
        let v = chars_of(s);
        let n: usize = text::char_count(prefix);
        let rest = text_between(&v, n, v.len());
        assert(rest@ =~= s@.skip(n as int));
        Some(rest)
    } else {
        None
    }
}

/// The value of a run of decimal digits.
pub open spec fn digits_value(s: Seq<char>) -> nat
    decreases s.len(),
{
    if s.len() == 0 {
        0
    } else {
        digits_value(s.drop_last()) * 10 + (s.last() as nat - 48) as nat
    }
}

/// Every character is a decimal digit.
pub open spec fn all_digits(s: Seq<char>) -> bool {
    forall|i: int| 0 <= i < s.len() ==> 48 <= (#[trigger] s[i]) as nat <= 57
}

/// The number that a text stands for: decimal digits, with or without a plus
/// sign in front, that fit in 32 bits.
pub open spec fn number(s: Seq<char>) -> Option<u32> {
    let digits = if s.len() > 0 && s[0] == '+' {
        s.drop_first()
    } else {
        s
    };
    if digits.len() > 0 && all_digits(digits) && digits_value(digits) <= u32::MAX {
        Some(digits_value(digits) as u32)
    } else {
        None
    }
}

proof fn digits_value_grows(s: Seq<char>, n: int)
    requires
        0 <= n <= s.len(),
        all_digits(s),
    ensures
        digits_value(s.take(n)) <= digits_value(s),
    decreases s.len() - n,
{
    if n < s.len() {
        digits_value_grows(s, n + 1);
        assert(s.take(n + 1).drop_last() =~= s.take(n));
    } else {
        assert(s.take(n) =~= s);
    }
}

/// The value of a decimal digit.
fn digit_value(c: char) -> (r: Option<u32>)
    ensures
        r == (if 48 <= c as nat <= 57 {
            Some((c as nat - 48) as u32)
        } else {
            None
        }),
{
    let n: u32 = c as u32;
    if 48 <= n && n <= 57 {
        Some(n - 48)
    } else {
        None
    }
}

/// The number that a text stands for.
pub fn parse_number(s: &str) -> (r: Option<u32>)
    ensures
        r == number(s@),
{
    let v = chars_of(s);
    let start: usize = if v.len() > 0 && v[0] == '+' {
        1
    } else {
        0
    };
    let ghost digits = v@.skip(start as int);
    assert(start == 0 ==> digits =~= s@);
    assert(start == 1 ==> digits =~= s@.drop_first());
    if start == v.len() {
        return None;
    }
    let mut i: usize = start;
    let mut value: u32 = 0;
    while i < v.len()
        invariant
            start <= i <= v@.len(),
            digits == v@.skip(start as int),
            all_digits(digits.take(i - start)),
            value == digits_value(digits.take(i - start)),
            digits.len() > 0,
            number(s@) == (if all_digits(digits) && digits_value(digits) <= u32::MAX {
                Some(digits_value(digits) as u32)
            } else {
                None
            }),
        decreases v@.len() - i,
    {
        let ghost n = i - start;
        assert(digits[n] == v@[i as int]);
        let d: u32 = match digit_value(v[i]) {
            Some(d) => d,
            None => {
                assert(!all_digits(digits));
                return None;
            },
        };
        assert(digits.take(n + 1).drop_last() =~= digits.take(n));
        assert(digits.take(n + 1).last() == v@[i as int]);
        assert(digits_value(digits.take(n + 1)) == value * 10 + d);
        let next: u64 = value as u64 * 10 + d as u64;
        if next > 0xffff_ffff {
            proof {
                if all_digits(digits) {
                    digits_value_grows(digits, n + 1);
                }
            }
            return None;
        }
        value = next as u32;
        assert forall|k: int| 0 <= k < n + 1 implies 48 <= (#[trigger] digits.take(
            n + 1,
        )[k]) as nat <= 57 by {
            if k < n {
                assert(digits.take(n)[k] == digits[k]);
            }
        }
        i = i + 1;
    }
    assert(digits.take(i - start) =~= digits);
    Some(value)
}

} // verus!
