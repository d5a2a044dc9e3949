//! What the text building blocks are for, stated over their calls.
use vstd::prelude::*;

use crate::json;
use crate::text;

verus! {

/// Two characters are the same, or the same ASCII letter in two cases.
pub open spec fn same_letter(a: char, b: char) -> bool {
    let (x, y) = (a as u32, b as u32);
    x == y || (x + 32 == y && 65 <= x <= 90) || (y + 32 == x && 65 <= y <= 90)
}

/// Two texts that differ at most in the case of ASCII letters.
pub open spec fn same_but_case(a: Seq<char>, b: Seq<char>) -> bool {
    a.len() == b.len() && forall|i: int| 0 <= i < a.len() ==> same_letter(#[trigger] a[i], b[i])
}

proof fn folded_letters(a: char, b: char)
    ensures
        (text::lower_char(a) == text::lower_char(b)) == same_letter(a, b),
{
    let (x, y) = (a as u32, b as u32);
    assert(65 <= x <= 90 ==> text::lower_char(a) as u32 == x + 32);
    assert(65 <= y <= 90 ==> text::lower_char(b) as u32 == y + 32);
}

/// Folding two texts to small letters makes them equal exactly where they differ
/// at most in case.
pub proof fn folding_forgets_case_only(a: Seq<char>, b: Seq<char>)
    ensures
        (text::lower(a) == text::lower(b)) == same_but_case(a, b),
{
    let (x, y) = (text::lower(a), text::lower(b));
    assert(x.len() == a.len() && y.len() == b.len());
    assert forall|i: int| 0 <= i < a.len() && i < b.len() implies (x[i] == y[i]) == same_letter(
        #[trigger] a[i],
        b[i],
    ) by {
        folded_letters(a[i], b[i]);
    }
    if x == y {
        assert forall|i: int| 0 <= i < a.len() implies same_letter(#[trigger] a[i], b[i]) by {
            assert(x[i] == y[i]);
        }
    }
    if same_but_case(a, b) {
        assert(x =~= y);
    }
}

proof fn folded_capital(c: char)
    ensures
        65 <= c as u32 <= 90 ==> text::lower_char(c) as u32 == c as u32 + 32,
        !(65 <= c as u32 <= 90) ==> text::lower_char(c) == c,
{
}

/// Folding keeps a text's length and every character but the ASCII capitals,
/// which move 32 places up.
pub proof fn folding_moves_capitals_only(s: &str, r: String, i: int)
    requires
        call_ensures(text::lower_text, (s,), r),
        0 <= i < s@.len(),
    ensures
        r@.len() == s@.len(),
        65 <= s@[i] as u32 <= 90 ==> r@[i] as u32 == s@[i] as u32 + 32,
        !(65 <= s@[i] as u32 <= 90) ==> r@[i] == s@[i],
{
    folded_capital(s@[i]);
    assert(r@[i] == text::lower_char(s@[i]));
}

/// A text begins with a word exactly where it is the word and something after it.
pub proof fn beginning_is_word_and_rest(s: &str, word: &str, r: bool)
    requires
        call_ensures(text::starts_with, (s, word), r),
    ensures
        r <==> exists|rest: Seq<char>| s@ == #[trigger] (word@ + rest),
{
    if r {
        let rest = s@.skip(word@.len() as int);
        assert(s@ =~= word@ + rest);
        assert(s@ == word@ + rest);
    }
    if exists|rest: Seq<char>| s@ == #[trigger] (word@ + rest) {
        let rest = choose|rest: Seq<char>| s@ == #[trigger] (word@ + rest);
        assert(s@.take(word@.len() as int) =~= word@);
    }
}

/// A text is in a list exactly where it stands at some place of it.
pub proof fn listed_is_at_some_place(v: &Vec<String>, x: &str, r: bool)
    requires
        call_ensures(text::contains, (v, x), r),
    ensures
        r <==> exists|i: int| 0 <= i < v@.len() && (#[trigger] v@[i])@ == x@,
{
    let s = text::views(v@);
    if s.contains(x@) {
        let i = choose|i: int| 0 <= i < s.len() && s[i] == x@;
        assert(v@[i]@ == x@);
    }
    if exists|i: int| 0 <= i < v@.len() && (#[trigger] v@[i])@ == x@ {
        let i = choose|i: int| 0 <= i < v@.len() && (#[trigger] v@[i])@ == x@;
        assert(s[i] == x@);
    }
}

/// A member of the texts of a list stands at some place of the list.
pub proof fn member_stands_at_some_place(v: Seq<String>, x: Seq<char>)
    ensures
        text::views(v).contains(x) <==> exists|i: int| 0 <= i < v.len() && (#[trigger] v[i])@ == x,
{
    let s = text::views(v);
    if s.contains(x) {
        let i = choose|i: int| 0 <= i < s.len() && s[i] == x;
        assert(v[i]@ == x);
    }
    if exists|i: int| 0 <= i < v.len() && (#[trigger] v[i])@ == x {
        let i = choose|i: int| 0 <= i < v.len() && (#[trigger] v[i])@ == x;
        assert(s[i] == x);
    }
}

// ----------------------------------------------------------------- numbers

/// What a digit is worth: `0` to `9`, then `a` to `f`.
pub open spec fn digit_worth(c: char) -> nat {
    let n = c as nat;
    if 48 <= n <= 57 {
        (n - 48) as nat
    } else if 97 <= n <= 102 {
        (n - 87) as nat
    } else {
        99
    }
}

/// What a row of digits is worth.
pub open spec fn worth(s: Seq<char>, base: nat) -> nat
    decreases s.len(),
{
    if s.len() == 0 {
        0
    } else {
        base * worth(s.drop_last(), base) + digit_worth(s.last())
    }
}

/// A row of digits of a base, without a leading zero unless it is the only one.
pub open spec fn numeral(s: Seq<char>, base: nat) -> bool {
    &&& s.len() > 0
    &&& forall|i: int| 0 <= i < s.len() ==> digit_worth(#[trigger] s[i]) < base
    &&& s.len() > 1 ==> s[0] != '0'
}

/// A decimal text is a numeral, and is worth the number.
pub proof fn decimal_reads_back(n: nat)
    ensures
        numeral(text::decimal(n), 10),
        worth(text::decimal(n), 10) == n,
        n > 0 ==> text::decimal(n)[0] != '0',
    decreases n,
{
    let s = text::decimal(n);
    if n < 10 {
        assert(s.drop_last() =~= Seq::empty());
        assert(worth(s.drop_last(), 10) == 0);
    } else {
        decimal_reads_back(n / 10);
        let front = text::decimal(n / 10);
        assert(s.drop_last() =~= front);
        assert(s[0] == front[0]);
        assert forall|i: int| 0 <= i < s.len() implies digit_worth(#[trigger] s[i]) < 10 by {
            if i < front.len() {
                assert(s[i] == front[i]);
            }
        }
        assert(10 * (n / 10) + n % 10 == n);
    }
}

/// A hexadecimal text is a numeral, and is worth the number.
pub proof fn hexadecimal_reads_back(n: nat)
    ensures
        numeral(text::hexadecimal(n), 16),
        worth(text::hexadecimal(n), 16) == n,
        n > 0 ==> text::hexadecimal(n)[0] != '0',
    decreases n,
{
    let s = text::hexadecimal(n);
    if n < 16 {
        assert(s.drop_last() =~= Seq::empty());
        assert(worth(s.drop_last(), 16) == 0);
        assert(digit_worth(json::hex_digit(n)) == n);
    } else {
        hexadecimal_reads_back(n / 16);
        let front = text::hexadecimal(n / 16);
        assert(s.drop_last() =~= front);
        assert(s[0] == front[0]);
        assert(digit_worth(json::hex_digit(n % 16)) == n % 16);
        assert forall|i: int| 0 <= i < s.len() implies digit_worth(#[trigger] s[i]) < 16 by {
            if i < front.len() {
                assert(s[i] == front[i]);
            }
        }
        assert(16 * (n / 16) + n % 16 == n);
    }
}

/// What is written of a number reads back as the number.
pub proof fn written_numbers_read_back(n: u64, d: String, h: String)
    requires
        call_ensures(text::decimal_text, (n,), d),
        call_ensures(text::hex_number_text, (n,), h),
    ensures
        numeral(d@, 10),
        worth(d@, 10) == n,
        h@.len() > 2 && h@[0] == '0' && h@[1] == 'x',
        numeral(h@.skip(2), 16),
        worth(h@.skip(2), 16) == n,
{
    reveal_strlit("0x");
    decimal_reads_back(n as nat);
    hexadecimal_reads_back(n as nat);
    assert(h@.skip(2) =~= text::hexadecimal(n as nat));
}

/// Zeros in front add nothing to what digits are worth.
pub proof fn leading_zeros_are_worth_nothing(k: nat, s: Seq<char>)
    ensures
        worth(Seq::new(k, |i: int| '0') + s, 10) == worth(s, 10),
    decreases k + s.len(),
{
    let z = Seq::new(k, |i: int| '0');
    let all = z + s;
    if s.len() > 0 {
        assert(all.drop_last() =~= z + s.drop_last());
        leading_zeros_are_worth_nothing(k, s.drop_last());
    } else if k > 0 {
        let y = Seq::new((k - 1) as nat, |i: int| '0');
        assert(all.drop_last() =~= y + s);
        leading_zeros_are_worth_nothing((k - 1) as nat, s);
    } else {
        assert(all =~= s);
    }
}

/// A filled-up number reads back as the number, is at least as wide as asked, and
/// is filled with nothing but zeros, and only as far as needed.
pub proof fn filled_numbers_read_back(n: u64, width: usize, r: String, d: String)
    requires
        call_ensures(text::decimal_padded_text, (n, width), r),
        call_ensures(text::decimal_text, (n,), d),
    ensures
        worth(r@, 10) == n,
        r@.len() >= width,
        r@.len() == width || r@ == d@,
        r@.len() >= d@.len(),
        r@.skip(r@.len() - d@.len()) == d@,
        forall|i: int| 0 <= i < r@.len() - d@.len() ==> #[trigger] r@[i] == '0',
{
    decimal_reads_back(n as nat);
    if d@.len() < width {
        leading_zeros_are_worth_nothing((width - d@.len()) as nat, d@);
    }
    assert(r@.skip(r@.len() - d@.len()) =~= d@);
}

/// What bytes are worth, the most significant first.
pub open spec fn bytes_worth(b: Seq<u8>) -> nat
    decreases b.len(),
{
    if b.len() == 0 {
        0
    } else {
        256 * bytes_worth(b.drop_last()) + b.last() as nat
    }
}

/// Eight bytes hold a 64-bit number whole, the most significant byte first.
pub proof fn eight_bytes_hold_the_number(n: u64, r: Vec<u8>)
    requires
        call_ensures(text::be_bytes_vec, (n, 8), r),
    ensures
        r@.len() == 8,
        bytes_worth(r@) == n,
{
    let m = n as nat;
    vstd::arithmetic::power::lemma_pow0(256);
    reveal_with_fuel(vstd::arithmetic::power::pow, 9);
    assert(vstd::arithmetic::power::pow(256, 8) == 18446744073709551616);
    byte_by_byte(m, 8);
}

/// A number that fits is what its bytes are worth.
pub proof fn byte_by_byte(n: nat, width: nat)
    requires
        n < vstd::arithmetic::power::pow(256, width),
    ensures
        text::be_bytes(n, width).len() == width,
        bytes_worth(text::be_bytes(n, width)) == n,
    decreases width,
{
    vstd::arithmetic::power::lemma_pow0(256);
    if width > 0 {
        let p = vstd::arithmetic::power::pow(256, (width - 1) as nat);
        assert(vstd::arithmetic::power::pow(256, width) == 256 * p) by {
            reveal(vstd::arithmetic::power::pow);
        }
        assert(n / 256 < p) by (nonlinear_arith)
            requires
                n < 256 * p,
        ;
        byte_by_byte(n / 256, (width - 1) as nat);
        let b = text::be_bytes(n, width);
        assert(b.drop_last() =~= text::be_bytes(n / 256, (width - 1) as nat));
        assert(256 * (n / 256) + n % 256 == n);
    }
}

// ------------------------------------------------------------------- blank

/// The codes of white space.
pub open spec fn space_codes() -> Set<u32> {
    set![
        9u32, 10u32, 11u32, 12u32, 13u32, 32u32, 133u32, 160u32, 5760u32, 8192u32, 8193u32,
        8194u32, 8195u32, 8196u32, 8197u32, 8198u32, 8199u32, 8200u32, 8201u32, 8202u32, 8232u32,
        8233u32, 8239u32, 8287u32, 12288u32,
    ]
}

/// A character is white space by its code.
pub proof fn space_by_code(c: char)
    ensures
        text::white_space(c) == space_codes().contains(c as u32),
{
}

/// A text is blank exactly where every character of it is white space: a control
/// of layout, the space, or one of the wide, narrow and line-breaking spaces.
pub proof fn blank_text_shows_nothing(s: &str, r: bool)
    requires
        call_ensures(text::is_blank, (s,), r),
    ensures
        r <==> forall|i: int| 0 <= i < s@.len() ==> space_codes().contains(#[trigger] s@[i] as u32),
{
    assert forall|i: int| 0 <= i < s@.len() implies text::white_space(#[trigger] s@[i])
        == space_codes().contains(s@[i] as u32) by {
        space_by_code(s@[i]);
    }
}

} // verus!
