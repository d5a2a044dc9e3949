//! What the ordered map is for, stated over its calls.
use vstd::prelude::*;

use crate::text;
use crate::text_map;
use crate::text_map::TextMap;

verus! {

/// A text comes before another where, at the first byte in which they differ, it
/// has the smaller one, or where it ends first.
pub proof fn order_is_by_the_first_difference(a: &str, b: &str, r: bool, k: int)
    requires
        call_ensures(text_map::text_before, (a, b), r),
        0 <= k <= text::utf8(a@).len(),
        k <= text::utf8(b@).len(),
        forall|i: int| 0 <= i < k ==> text::utf8(a@)[i] == #[trigger] text::utf8(b@)[i],
    ensures
        k < text::utf8(a@).len() && k < text::utf8(b@).len() && text::utf8(a@)[k]
            < text::utf8(b@)[k] ==> r,
        k < text::utf8(a@).len() && k < text::utf8(b@).len() && text::utf8(a@)[k]
            > text::utf8(b@)[k] ==> !r,
        k == text::utf8(a@).len() && k < text::utf8(b@).len() ==> r,
        k == text::utf8(b@).len() ==> !r,
{
    after_common_front(text::utf8(a@), text::utf8(b@), k);
}

proof fn after_common_front(x: Seq<u8>, y: Seq<u8>, k: int)
    requires
        0 <= k <= x.len(),
        k <= y.len(),
        forall|i: int| 0 <= i < k ==> x[i] == #[trigger] y[i],
    ensures
        text_map::bytes_less(x, y) == text_map::bytes_less(x.skip(k), y.skip(k)),
    decreases k,
{
    if k > 0 {
        let (u, v) = (x.drop_first(), y.drop_first());
        assert(x[0] == y[0]);
        assert forall|i: int| 0 <= i < k - 1 implies u[i] == #[trigger] v[i] by {
            assert(x[i + 1] == y[i + 1]);
        }
        after_common_front(u, v, k - 1);
        assert(u.skip(k - 1) =~= x.skip(k));
        assert(v.skip(k - 1) =~= y.skip(k));
    } else {
        assert(x.skip(0) =~= x);
        assert(y.skip(0) =~= y);
    }
}

/// What is found under a key is the value of an entry with that key, and a key is
/// found wherever there is such an entry.
pub proof fn found_is_an_entry<'a, V>(m: &'a TextMap<V>, k: &str, r: Option<&'a V>)
    requires
        call_ensures(TextMap::<V>::get, (m, k), r),
    ensures
        r is Some <==> exists|i: int| 0 <= i < m@.len() && (#[trigger] m@[i]).0 == k@,
        r matches Some(v) ==> exists|i: int|
            0 <= i < m@.len() && (#[trigger] m@[i]).0 == k@ && m@[i].1 == *v,
{
    lookup_is_an_entry(m@, k@);
}

/// What a look-up finds is the value of the first entry with that key.
pub proof fn lookup_is_an_entry<V>(s: Seq<(Seq<char>, V)>, k: Seq<char>)
    ensures
        text_map::lookup(s, k) is Some <==> exists|i: int|
            0 <= i < s.len() && (#[trigger] s[i]).0 == k,
        text_map::lookup(s, k) matches Some(v) ==> exists|i: int|
            0 <= i < s.len() && (#[trigger] s[i]).0 == k && s[i].1 == v,
    decreases s.len(),
{
    if s.len() > 0 {
        let rest = s.drop_first();
        lookup_is_an_entry(rest, k);
        if s[0].0 == k {
            assert(s[0].0 == k && s[0].1 == s[0].1);
        } else {
            if let Some(v) = text_map::lookup(rest, k) {
                let i = choose|i: int|
                    0 <= i < rest.len() && (#[trigger] rest[i]).0 == k && rest[i].1 == v;
                assert(s[i + 1] == rest[i]);
            }
            if exists|i: int| 0 <= i < s.len() && (#[trigger] s[i]).0 == k {
                let i = choose|i: int| 0 <= i < s.len() && (#[trigger] s[i]).0 == k;
                assert(rest[i - 1] == s[i]);
            }
        }
    }
}

/// A stored value is found again, in place of what was there, and other keys keep
/// theirs.
pub proof fn stored_is_found<V>(
    m: &mut TextMap<V>,
    earlier: &TextMap<V>,
    later: &TextMap<V>,
    k: &str,
    v: V,
    u: (),
    other: &str,
    before: Option<&V>,
    after: Option<&V>,
)
    requires
        call_ensures(TextMap::<V>::insert, (m, k, v), u),
        *earlier == *old(m),
        *later == *final(m),
        call_ensures(TextMap::<V>::get, (earlier, other), before),
        call_ensures(TextMap::<V>::get, (later, other), after),
    ensures
        other@ == k@ ==> after is Some && *after->0 == v,
        other@ != k@ ==> after is Some == before is Some,
        other@ != k@ && before is Some ==> *after->0 == *before->0,
{
    text_map::lookup_after_put(earlier@, k@, v, other@);
}

/// A removed key is gone, what was stored comes out, and other keys keep theirs.
pub proof fn removed_is_gone<V>(
    m: &mut TextMap<V>,
    earlier: &TextMap<V>,
    later: &TextMap<V>,
    k: &str,
    r: Option<V>,
    other: &str,
    before: Option<&V>,
    after: Option<&V>,
    n: usize,
)
    requires
        call_ensures(TextMap::<V>::remove, (m, k), r),
        *earlier == *old(m),
        *later == *final(m),
        call_ensures(TextMap::<V>::get, (earlier, other), before),
        call_ensures(TextMap::<V>::get, (later, other), after),
        call_ensures(TextMap::<V>::len, (earlier,), n),
    ensures
        other@ == k@ ==> after is None && r is Some == before is Some,
        other@ == k@ && before is Some ==> r->0 == *before->0,
        other@ != k@ ==> after is Some == before is Some,
        other@ != k@ && before is Some ==> *after->0 == *before->0,
{
    text_map::lookup_after_without(earlier@, k@, other@);
}

} // verus!
