//! A map from texts to values that keeps its entries in ascending key order,
//! so that walking it is deterministic.
use vstd::prelude::*;

use crate::text;

pub mod laws;

verus! {

/// Lexicographic order on bytes.
pub open spec fn bytes_less(a: Seq<u8>, b: Seq<u8>) -> bool
    decreases a.len(),
{
    if b.len() == 0 {
        false
    } else if a.len() == 0 {
        true
    } else if a[0] != b[0] {
        a[0] < b[0]
    } else {
        bytes_less(a.drop_first(), b.drop_first())
    }
}

/// Texts are ordered by their UTF-8 bytes.
pub open spec fn text_less(a: Seq<char>, b: Seq<char>) -> bool {
    bytes_less(text::utf8(a), text::utf8(b))
}

/// Whether `a` comes before `b`.
pub fn text_before(a: &str, b: &str) -> (r: bool)
    ensures
        r == text_less(a@, b@),
{
    let x = a.as_bytes();
    let y = b.as_bytes();
    let mut i: usize = 0;
    assert(x@.skip(0) =~= x@ && y@.skip(0) =~= y@);
    while i < x.len() && i < y.len()
        invariant
            i <= x@.len(),
            i <= y@.len(),
            x@ == text::utf8(a@),
            y@ == text::utf8(b@),
            bytes_less(x@, y@) == bytes_less(x@.skip(i as int), y@.skip(i as int)),
        decreases x@.len() - i,
    {
        if x[i] != y[i] {
            return x[i] < y[i];
        }
        assert(x@.skip(i as int).drop_first() =~= x@.skip(i as int + 1));
        assert(y@.skip(i as int).drop_first() =~= y@.skip(i as int + 1));
        i = i + 1;
    }
    i < y.len()
}

proof fn bytes_less_irreflexive(a: Seq<u8>)
    ensures
        !bytes_less(a, a),
    decreases a.len(),
{
    if a.len() > 0 {
        bytes_less_irreflexive(a.drop_first());
    }
}

proof fn bytes_less_transitive(a: Seq<u8>, b: Seq<u8>, c: Seq<u8>)
    requires
        bytes_less(a, b),
        bytes_less(b, c),
    ensures
        bytes_less(a, c),
    decreases a.len(),
{
    if a.len() > 0 && b.len() > 0 && c.len() > 0 && a[0] == b[0] && b[0] == c[0] {
        bytes_less_transitive(a.drop_first(), b.drop_first(), c.drop_first());
    }
}

proof fn bytes_less_total(a: Seq<u8>, b: Seq<u8>)
    ensures
        a == b || bytes_less(a, b) || bytes_less(b, a),
    decreases a.len(),
{
    if a.len() > 0 && b.len() > 0 {
        if a[0] == b[0] {
            bytes_less_total(a.drop_first(), b.drop_first());
            if a.drop_first() == b.drop_first() {
                assert(a =~= seq![a[0]] + a.drop_first());
                assert(b =~= seq![b[0]] + b.drop_first());
            }
        }
    } else if a.len() == 0 && b.len() == 0 {
        assert(a =~= b);
    }
}

/// Keys in strictly ascending order: no key occurs twice.
pub open spec fn ascending<V>(s: Seq<(Seq<char>, V)>) -> bool {
    forall|i: int, j: int|
        0 <= i < j < s.len() ==> text_less(#[trigger] s[i].0, #[trigger] s[j].0)
}

/// The value stored under `k`.
pub open spec fn lookup<V>(s: Seq<(Seq<char>, V)>, k: Seq<char>) -> Option<V>
    decreases s.len(),
{
    if s.len() == 0 {
        None
    } else if s[0].0 == k {
        Some(s[0].1)
    } else {
        lookup(s.drop_first(), k)
    }
}

/// The entries with `v` stored under `k`, at the place that the order gives it.
pub open spec fn put<V>(s: Seq<(Seq<char>, V)>, k: Seq<char>, v: V) -> Seq<(Seq<char>, V)>
    decreases s.len(),
{
    if s.len() == 0 {
        seq![(k, v)]
    } else if s[0].0 == k {
        seq![(k, v)] + s.drop_first()
    } else if text_less(k, s[0].0) {
        seq![(k, v)] + s
    } else {
        seq![s[0]] + put(s.drop_first(), k, v)
    }
}

/// The entries without the one stored under `k`.
pub open spec fn without<V>(s: Seq<(Seq<char>, V)>, k: Seq<char>) -> Seq<(Seq<char>, V)>
    decreases s.len(),
{
    if s.len() == 0 {
        s
    } else if s[0].0 == k {
        s.drop_first()
    } else {
        seq![s[0]] + without(s.drop_first(), k)
    }
}

/// A stored value is what a later look-up finds; other keys keep theirs.
pub proof fn lookup_after_put<V>(s: Seq<(Seq<char>, V)>, k: Seq<char>, v: V, other: Seq<char>)
    ensures
        lookup(put(s, k, v), other) == (if other == k {
            Some(v)
        } else {
            lookup(s, other)
        }),
    decreases s.len(),
{
    let p = put(s, k, v);
    if s.len() == 0 {
        assert(p.drop_first() =~= s);
    } else if s[0].0 == k {
        assert(p.drop_first() =~= s.drop_first());
    } else if text_less(k, s[0].0) {
        assert(p.drop_first() =~= s);
    } else {
        lookup_after_put(s.drop_first(), k, v, other);
        assert(p.drop_first() =~= put(s.drop_first(), k, v));
    }
}

/// A removed key is gone; other keys keep their values.
pub proof fn lookup_after_without<V>(s: Seq<(Seq<char>, V)>, k: Seq<char>, other: Seq<char>)
    requires
        ascending(s),
    ensures
        lookup(without(s, k), other) == (if other == k {
            None
        } else {
            lookup(s, other)
        }),
    decreases s.len(),
{
    if s.len() > 0 {
        let rest = s.drop_first();
        assert(ascending(rest)) by {
            assert forall|i: int, j: int| 0 <= i < j < rest.len() implies text_less(
                #[trigger] rest[i].0,
                #[trigger] rest[j].0,
            ) by {
                assert(text_less(s[i + 1].0, s[j + 1].0));
            }
        }
        lookup_after_without(rest, k, other);
        if s[0].0 == k {
            assert forall|i: int| 0 <= i < rest.len() implies (#[trigger] rest[i]).0 != k by {
                assert(text_less(s[0].0, s[i + 1].0));
                bytes_less_irreflexive(text::utf8(k));
            }
            no_entry(rest, k);
        } else {
            assert(without(s, k).drop_first() =~= without(rest, k));
        }
    }
}

proof fn no_entry<V>(s: Seq<(Seq<char>, V)>, k: Seq<char>)
    requires
        forall|i: int| 0 <= i < s.len() ==> (#[trigger] s[i]).0 != k,
    ensures
        lookup(s, k) is None,
    decreases s.len(),
{
    if s.len() > 0 {
        assert(s[0].0 != k);
        assert forall|i: int| 0 <= i < s.drop_first().len() implies (
        #[trigger] s.drop_first()[i]).0 != k by {
            assert(s[i + 1].0 != k);
        }
        no_entry(s.drop_first(), k);
    }
}

/// A map from texts to values, ordered by key.
#[derive(Debug, PartialEq, Eq)]
pub struct TextMap<V> {
    entries: Vec<(String, V)>,
}

/// The entries as pairs of key text and value.
pub open spec fn entries_view<V>(s: Seq<(String, V)>) -> Seq<(Seq<char>, V)> {
    s.map_values(|e: (String, V)| (e.0@, e.1))
}

impl<V> View for TextMap<V> {
    type V = Seq<(Seq<char>, V)>;

    closed spec fn view(&self) -> Seq<(Seq<char>, V)> {
        entries_view(self.entries@)
    }
}

impl<V: Clone> Clone for TextMap<V> {
    fn clone(&self) -> (r: Self)
        ensures
            r@.len() == self@.len(),
            forall|i: int|
                0 <= i < self@.len() ==> (#[trigger] r@[i]).0 == self@[i].0 && cloned(
                    self@[i].1,
                    r@[i].1,
                ),
    {
        proof {
            use_type_invariant(self);
        }
        let mut entries: Vec<(String, V)> = Vec::new();
        let mut i: usize = 0;
        while i < self.entries.len()
            invariant
                i <= self.entries@.len(),
                entries@.len() == i,
                forall|k: int|
                    0 <= k < i ==> (#[trigger] entries@[k]).0@ == self.entries@[k].0@ && cloned(
                        self.entries@[k].1,
                        entries@[k].1,
                    ),
            decreases self.entries@.len() - i,
        {
            entries.push((self.entries[i].0.clone(), self.entries[i].1.clone()));
            i = i + 1;
        }
        proof {
            let (a, b) = (entries_view(self.entries@), entries_view(entries@));
            assert(ascending(b)) by {
                assert(ascending(a));
                assert forall|k: int| 0 <= k < b.len() implies (#[trigger] b[k]).0 == a[k].0 by {
                    assert(entries@[k].0@ == self.entries@[k].0@);
                }
            }
        }
        let r = TextMap { entries };
        assert forall|k: int| 0 <= k < self@.len() implies (#[trigger] r@[k]).0 == self@[k].0
            && cloned(self@[k].1, r@[k].1) by {
            assert(r.entries@[k].0@ == self.entries@[k].0@);
        }
        r
    }
}

impl<V> TextMap<V> {
    #[verifier::type_invariant]
    spec fn ordered(self) -> bool {
        ascending(entries_view(self.entries@))
    }

    /// The empty map.
    pub fn new() -> (r: Self)
        ensures
            r@ == Seq::<(Seq<char>, V)>::empty(),
    {
        let r = TextMap { entries: Vec::new() };
        assert(r@ =~= Seq::empty());
        r
    }

    /// Number of entries.
    pub fn len(&self) -> (r: usize)
        ensures
            r == self@.len(),
            ascending(self@),
    {
        proof {
            use_type_invariant(&*self);
        }
        self.entries.len()
    }

    /// The key of entry number `i`, in ascending order.
    pub fn key_at(&self, i: usize) -> (r: &str)
        requires
            i < self@.len(),
        ensures
            r@ == self@[i as int].0,
    {
        self.entries[i].0.as_str()
    }

    /// The value of entry number `i`, in ascending order of keys.
    pub fn value_at(&self, i: usize) -> (r: &V)
        requires
            i < self@.len(),
        ensures
            *r == self@[i as int].1,
    {
        &self.entries[i].1
    }

    /// The first entry whose key does not come before `k`.
    fn position(entries: &Vec<(String, V)>, k: &str) -> (r: usize)
        requires
            ascending(entries_view(entries@)),
        ensures
            r <= entries@.len(),
            forall|j: int| 0 <= j < r ==> text_less((#[trigger] entries@[j]).0@, k@),
            r < entries@.len() ==> !text_less(entries@[r as int].0@, k@),
    {
        let mut i: usize = 0;
        while i < entries.len() && text_before(entries[i].0.as_str(), k)
            invariant
                i <= entries@.len(),
                forall|j: int| 0 <= j < i ==> text_less((#[trigger] entries@[j]).0@, k@),
            decreases entries@.len() - i,
        {
            i = i + 1;
        }
        i
    }

    /// The value stored under `k`.
    pub fn get(&self, k: &str) -> (r: Option<&V>)
        ensures
            match r {
                Some(v) => lookup(self@, k@) == Some(*v),
                None => lookup(self@, k@) is None,
            },
    {
        proof {
            use_type_invariant(&*self);
        }
        let i: usize = Self::position(&self.entries, k);
        if i < self.entries.len() && text::same(self.entries[i].0.as_str(), k) {
            proof {
                found_at(self@, i as int, k@);
            }
            Some(&self.entries[i].1)
        } else {
            proof {
                missing_at(self@, i as int, k@);
            }
            None
        }
    }

    /// Stores `v` under `k`, in place of what was there.
    pub fn insert(&mut self, k: &str, v: V)
        ensures
            final(self)@ == put(old(self)@, k@, v),
            ascending(final(self)@),
    {
        proof {
            use_type_invariant(&*self);
        }
        let mut entries: Vec<(String, V)> = Vec::new();
        std::mem::swap(&mut entries, &mut self.entries);
        let ghost before = entries_view(entries@);
        let i: usize = Self::position(&entries, k);
        if i < entries.len() && text::same(entries[i].0.as_str(), k) {
            proof {
                put_found(before, i as int, k@, v);
            }
            entries[i] = (k.to_string(), v);
            assert(entries_view(entries@) =~= before.update(i as int, (k@, v)));
        } else {
            proof {
                put_missing(before, i as int, k@, v);
            }
            entries.insert(i, (k.to_string(), v));
            assert(entries_view(entries@) =~= before.insert(i as int, (k@, v)));
        }
        self.entries = entries;
    }

    /// Takes the value stored under `k` out of the map.
    pub fn remove(&mut self, k: &str) -> (r: Option<V>)
        ensures
            r == lookup(old(self)@, k@),
            final(self)@ == without(old(self)@, k@),
    {
        proof {
            use_type_invariant(&*self);
        }
        let mut entries: Vec<(String, V)> = Vec::new();
        std::mem::swap(&mut entries, &mut self.entries);
        let ghost before = entries_view(entries@);
        let i: usize = Self::position(&entries, k);
        let mut out: Option<V> = None;
        if i < entries.len() && text::same(entries[i].0.as_str(), k) {
            proof {
                found_at(before, i as int, k@);
                without_found(before, i as int, k@);
            }
            let e = entries.remove(i);
            assert(entries_view(entries@) =~= before.remove(i as int));
            out = Some(e.1);
        } else {
            proof {
                missing_at(before, i as int, k@);
                without_missing(before, k@);
            }
        }
        self.entries = entries;
        out
    }
}

proof fn tail_ascending<V>(s: Seq<(Seq<char>, V)>)
    requires
        ascending(s),
        s.len() > 0,
    ensures
        ascending(s.drop_first()),
{
    let rest = s.drop_first();
    assert forall|i: int, j: int| 0 <= i < j < rest.len() implies text_less(
        #[trigger] rest[i].0,
        #[trigger] rest[j].0,
    ) by {
        assert(text_less(s[i + 1].0, s[j + 1].0));
    }
}

proof fn found_at<V>(s: Seq<(Seq<char>, V)>, i: int, k: Seq<char>)
    requires
        ascending(s),
        0 <= i < s.len(),
        s[i].0 == k,
    ensures
        lookup(s, k) == Some(s[i].1),
    decreases s.len(),
{
    if i > 0 {
        assert(text_less(s[0].0, s[i].0));
        bytes_less_irreflexive(text::utf8(k));
        tail_ascending(s);
        found_at(s.drop_first(), i - 1, k);
    }
}

/// Every entry before `i` comes before `k`, and the one at `i` comes after.
spec fn gap_at<V>(s: Seq<(Seq<char>, V)>, i: int, k: Seq<char>) -> bool {
    &&& ascending(s)
    &&& 0 <= i <= s.len()
    &&& forall|j: int| 0 <= j < i ==> text_less((#[trigger] s[j]).0, k)
    &&& i < s.len() ==> !text_less(s[i].0, k) && s[i].0 != k
}

proof fn gap_above<V>(s: Seq<(Seq<char>, V)>, i: int, k: Seq<char>)
    requires
        gap_at(s, i, k),
    ensures
        forall|j: int| i <= j < s.len() ==> text_less(k, (#[trigger] s[j]).0),
        forall|j: int| 0 <= j < s.len() ==> (#[trigger] s[j]).0 != k,
{
    bytes_less_irreflexive(text::utf8(k));
    assert forall|j: int| i <= j < s.len() implies text_less(k, (#[trigger] s[j]).0) by {
        bytes_less_total(text::utf8(s[i].0), text::utf8(k));
        if text::utf8(s[i].0) == text::utf8(k) {
            text::utf8_is_injective(s[i].0, k);
        }
        if i < j {
            assert(text_less(s[i].0, s[j].0));
            bytes_less_transitive(text::utf8(k), text::utf8(s[i].0), text::utf8(s[j].0));
        }
    }
}

proof fn missing_at<V>(s: Seq<(Seq<char>, V)>, i: int, k: Seq<char>)
    requires
        gap_at(s, i, k),
    ensures
        lookup(s, k) is None,
{
    gap_above(s, i, k);
    no_entry(s, k);
}

proof fn without_missing<V>(s: Seq<(Seq<char>, V)>, k: Seq<char>)
    requires
        lookup(s, k) is None,
    ensures
        without(s, k) == s,
    decreases s.len(),
{
    if s.len() > 0 {
        without_missing(s.drop_first(), k);
        assert(without(s, k) =~= s);
    }
}

proof fn without_found<V>(s: Seq<(Seq<char>, V)>, i: int, k: Seq<char>)
    requires
        ascending(s),
        0 <= i < s.len(),
        s[i].0 == k,
    ensures
        without(s, k) == s.remove(i),
        ascending(s.remove(i)),
    decreases s.len(),
{
    let t = s.remove(i);
    assert forall|a: int, b: int| 0 <= a < b < t.len() implies text_less(
        #[trigger] t[a].0,
        #[trigger] t[b].0,
    ) by {
        let (x, y) = (
            if a < i {
                a
            } else {
                a + 1
            },
            if b < i {
                b
            } else {
                b + 1
            },
        );
        assert(text_less(s[x].0, s[y].0));
    }
    if i > 0 {
        assert(text_less(s[0].0, s[i].0));
        bytes_less_irreflexive(text::utf8(k));
        tail_ascending(s);
        without_found(s.drop_first(), i - 1, k);
        assert(seq![s[0]] + s.drop_first().remove(i - 1) =~= t);
    } else {
        assert(s.drop_first() =~= t);
    }
}

proof fn put_found<V>(s: Seq<(Seq<char>, V)>, i: int, k: Seq<char>, v: V)
    requires
        ascending(s),
        0 <= i < s.len(),
        s[i].0 == k,
    ensures
        put(s, k, v) == s.update(i, (k, v)),
        ascending(s.update(i, (k, v))),
    decreases s.len(),
{
    let t = s.update(i, (k, v));
    assert forall|a: int, b: int| 0 <= a < b < t.len() implies text_less(
        #[trigger] t[a].0,
        #[trigger] t[b].0,
    ) by {
        assert(text_less(s[a].0, s[b].0));
    }
    if i > 0 {
        assert(text_less(s[0].0, s[i].0));
        bytes_less_irreflexive(text::utf8(k));
        if text_less(k, s[0].0) {
            bytes_less_transitive(text::utf8(k), text::utf8(s[0].0), text::utf8(k));
        }
        tail_ascending(s);
        put_found(s.drop_first(), i - 1, k, v);
        assert(seq![s[0]] + s.drop_first().update(i - 1, (k, v)) =~= t);
    } else {
        assert(seq![(k, v)] + s.drop_first() =~= t);
    }
}

proof fn put_missing<V>(s: Seq<(Seq<char>, V)>, i: int, k: Seq<char>, v: V)
    requires
        gap_at(s, i, k),
    ensures
        put(s, k, v) == s.insert(i, (k, v)),
        ascending(s.insert(i, (k, v))),
    decreases s.len(),
{
    gap_above(s, i, k);
    let t = s.insert(i, (k, v));
    assert forall|a: int, b: int| 0 <= a < b < t.len() implies text_less(
        #[trigger] t[a].0,
        #[trigger] t[b].0,
    ) by {
        if a < i && b > i {
            assert(text_less(s[a].0, s[b - 1].0));
        } else if a < i && b < i {
            assert(text_less(s[a].0, s[b].0));
        } else if a < i {
            assert(text_less(s[a].0, k));
        } else if a == i {
            assert(text_less(k, s[b - 1].0));
        } else {
            assert(text_less(s[a - 1].0, s[b - 1].0));
        }
    }
    if s.len() == 0 {
        assert(seq![(k, v)] =~= t);
    } else if i > 0 {
        assert(text_less(s[0].0, k));
        bytes_less_irreflexive(text::utf8(k));
        if text_less(k, s[0].0) {
            bytes_less_transitive(text::utf8(k), text::utf8(s[0].0), text::utf8(k));
        }
        let rest = s.drop_first();
        tail_ascending(s);
        assert forall|j: int| 0 <= j < i - 1 implies text_less((#[trigger] rest[j]).0, k) by {
            assert(text_less(s[j + 1].0, k));
        }
        put_missing(rest, i - 1, k, v);
        assert(seq![s[0]] + rest.insert(i - 1, (k, v)) =~= t);
    } else {
        assert(text_less(k, s[0].0));
        assert(seq![(k, v)] + s =~= t);
    }
}

} // verus!
