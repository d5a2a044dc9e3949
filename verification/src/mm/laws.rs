//! What the memory operations are for, stated over their calls.
use vstd::prelude::*;

use crate::mm;
use crate::mm::{
    AllocationRecord, GuestMemoryMap, GuestMemoryRegion, GuestPhysAddr, GuestPhysRange,
    HostPhysAddr, HostPhysRange, InMemoryNpt, MemoryQuotaManager, MmError, MmioTrapRange,
    MmioTrapRegistry, NestedPageTable, Npt, NptMapping, PageState, PageZeroizer, Perms,
    RegionKind, VmId,
};

verus! {

/// Guest address `x` is one of the addresses of mapping `m`. The topmost address
/// belongs to none.
pub open spec fn inside(m: NptMapping, x: u64) -> bool {
    m.gpa.0 <= x < u64::MAX && x - m.gpa.0 < m.len
}

proof fn first_cover_decides(s: Seq<NptMapping>, x: u64, i: int)
    requires
        0 <= i < s.len(),
        inside(s[i], x),
        forall|j: int| 0 <= j < i ==> !inside(#[trigger] s[j], x),
    ensures
        mm::translated(s, x) == Some(s[i].host_of(x)),
    decreases i,
{
    if i > 0 {
        assert(!inside(s[0], x));
        let rest = s.drop_first();
        assert(rest[i - 1] == s[i]);
        assert forall|j: int| 0 <= j < i - 1 implies !inside(#[trigger] rest[j], x) by {
            assert(rest[j] == s[j + 1]);
        }
        first_cover_decides(rest, x, i - 1);
    }
}

proof fn no_cover_no_translation(s: Seq<NptMapping>, x: u64)
    requires
        forall|j: int| 0 <= j < s.len() ==> !inside(#[trigger] s[j], x),
    ensures
        mm::translated(s, x) is None,
    decreases s.len(),
{
    if s.len() > 0 {
        assert(!inside(s[0], x));
        let rest = s.drop_first();
        assert forall|j: int| 0 <= j < rest.len() implies !inside(#[trigger] rest[j], x) by {
            assert(rest[j] == s[j + 1]);
        }
        no_cover_no_translation(rest, x);
    }
}

proof fn first_cover(s: Seq<NptMapping>, x: u64, k: int) -> (i: int)
    requires
        0 <= k < s.len(),
        inside(s[k], x),
    ensures
        0 <= i <= k,
        inside(s[i], x),
        forall|j: int| 0 <= j < i ==> !inside(#[trigger] s[j], x),
    decreases k,
{
    if exists|j: int| 0 <= j < k && inside(#[trigger] s[j], x) {
        let j = choose|j: int| 0 <= j < k && inside(#[trigger] s[j], x);
        first_cover(s, x, j)
    } else {
        k
    }
}

/// The first mapping that holds an address carries it over with its offset: as
/// far as the host range does not run over the top of the address space, the
/// address lies as far behind the start of the host range as it lies behind the
/// start of the guest range.
pub proof fn translation_keeps_the_offset(
    npt: &InMemoryNpt,
    x: GuestPhysAddr,
    r: Option<HostPhysAddr>,
    i: int,
)
    requires
        call_ensures(<InMemoryNpt as Npt>::translate, (npt, x), r),
        0 <= i < npt.installed().len(),
        inside(npt.installed()[i], x.0),
        forall|j: int| 0 <= j < i ==> !inside(#[trigger] npt.installed()[j], x.0),
        npt.installed()[i].hpa.0 + npt.installed()[i].len <= u64::MAX + 1,
    ensures
        r matches Some(h) && h.0 - npt.installed()[i].hpa.0 == x.0 - npt.installed()[i].gpa.0,
{
    first_cover_decides(npt.installed(), x.0, i);
}

/// Two different addresses of one mapping never land on the same host address.
pub proof fn translation_is_one_to_one(
    npt: &InMemoryNpt,
    x: GuestPhysAddr,
    y: GuestPhysAddr,
    hx: Option<HostPhysAddr>,
    hy: Option<HostPhysAddr>,
    i: int,
)
    requires
        call_ensures(<InMemoryNpt as Npt>::translate, (npt, x), hx),
        call_ensures(<InMemoryNpt as Npt>::translate, (npt, y), hy),
        0 <= i < npt.installed().len(),
        inside(npt.installed()[i], x.0),
        inside(npt.installed()[i], y.0),
        forall|j: int| 0 <= j < i ==> !inside(#[trigger] npt.installed()[j], x.0),
        forall|j: int| 0 <= j < i ==> !inside(#[trigger] npt.installed()[j], y.0),
        npt.installed()[i].hpa.0 + npt.installed()[i].len <= u64::MAX + 1,
        x != y,
    ensures
        hx is Some,
        hy is Some,
        hx != hy,
{
    translation_keeps_the_offset(npt, x, hx, i);
    translation_keeps_the_offset(npt, y, hy, i);
}

/// Deny by default: an address translates exactly where some mapping holds it.
pub proof fn unmapped_address_does_not_translate(
    npt: &InMemoryNpt,
    x: GuestPhysAddr,
    r: Option<HostPhysAddr>,
)
    requires
        call_ensures(<InMemoryNpt as Npt>::translate, (npt, x), r),
    ensures
        r is Some <==> exists|i: int|
            0 <= i < npt.installed().len() && inside(#[trigger] npt.installed()[i], x.0),
{
    let s = npt.installed();
    if exists|i: int| 0 <= i < s.len() && inside(#[trigger] s[i], x.0) {
        let k = choose|i: int| 0 <= i < s.len() && inside(#[trigger] s[i], x.0);
        let i = first_cover(s, x.0, k);
        first_cover_decides(s, x.0, i);
    } else {
        no_cover_no_translation(s, x.0);
    }
}

/// A host address that a translation gives lies in the host range of a mapping
/// that holds the guest address.
pub proof fn translation_stays_in_the_mapping(
    npt: &InMemoryNpt,
    x: GuestPhysAddr,
    h: HostPhysAddr,
)
    requires
        call_ensures(<InMemoryNpt as Npt>::translate, (npt, x), Some(h)),
    ensures
        exists|i: int|
            0 <= i < npt.installed().len() && inside(#[trigger] npt.installed()[i], x.0)
                && npt.installed()[i].hpa.0 <= h.0 < npt.installed()[i].hpa.0
                + npt.installed()[i].len,
{
    unmapped_address_does_not_translate(npt, x, Some(h));
    let s = npt.installed();
    let k = choose|i: int| 0 <= i < s.len() && inside(#[trigger] s[i], x.0);
    let i = first_cover(s, x.0, k);
    first_cover_decides(s, x.0, i);
    assert(inside(s[i], x.0));
}

/// What a mapping adds: an address of the new range that did not translate is
/// carried over with its offset, and every other address translates as before.
pub proof fn mapping_adds_its_range(
    npt: &mut InMemoryNpt,
    earlier: &InMemoryNpt,
    later: &InMemoryNpt,
    gpa: GuestPhysAddr,
    hpa: HostPhysAddr,
    len: u64,
    perms: Perms,
    id: u64,
    x: GuestPhysAddr,
    before: Option<HostPhysAddr>,
    after: Option<HostPhysAddr>,
)
    requires
        call_ensures(
            <InMemoryNpt as Npt>::map,
            (npt, gpa, hpa, len, perms),
            Ok::<u64, MmError>(id),
        ),
        *earlier == *old(npt),
        *later == *final(npt),
        call_ensures(<InMemoryNpt as Npt>::translate, (earlier, x), before),
        call_ensures(<InMemoryNpt as Npt>::translate, (later, x), after),
        gpa.0 + len <= u64::MAX,
        hpa.0 + len <= u64::MAX,
    ensures
        before is Some || !(gpa.0 <= x.0 < gpa.0 + len) ==> after == before,
        before is None && gpa.0 <= x.0 < gpa.0 + len ==> (after matches Some(h) && h.0 - hpa.0
            == x.0 - gpa.0),
{
    let (s, t) = (earlier.installed(), later.installed());
    let n = s.len() as int;
    let added = NptMapping { id, gpa, hpa, len, perms };
    assert(t == s.push(added));
    assert(t[n] == added);
    unmapped_address_does_not_translate(earlier, x, before);
    unmapped_address_does_not_translate(later, x, after);
    if before is Some {
        let k = choose|i: int| 0 <= i < n && inside(#[trigger] s[i], x.0);
        let i = first_cover(s, x.0, k);
        first_cover_decides(s, x.0, i);
        assert(t[i] == s[i]);
        assert forall|j: int| 0 <= j < i implies !inside(#[trigger] t[j], x.0) by {
            assert(t[j] == s[j]);
        }
        first_cover_decides(t, x.0, i);
    } else {
        assert forall|j: int| 0 <= j < n implies !inside(#[trigger] t[j], x.0) by {
            assert(t[j] == s[j]);
        }
        if inside(added, x.0) {
            first_cover_decides(t, x.0, n);
        } else {
            no_cover_no_translation(t, x.0);
        }
    }
}

/// A mapping is refused exactly where it is empty, and then nothing changes; the
/// id of a mapping is none that is in use.
pub proof fn mapping_ids_are_fresh(
    npt: &mut InMemoryNpt,
    gpa: GuestPhysAddr,
    hpa: HostPhysAddr,
    len: u64,
    perms: Perms,
    r: Result<u64, MmError>,
)
    requires
        call_ensures(<InMemoryNpt as Npt>::map, (npt, gpa, hpa, len, perms), r),
    ensures
        r is Ok <==> len > 0,
        r is Err ==> r == Err::<u64, MmError>(MmError::ZeroLength) && final(npt).installed()
            == old(npt).installed(),
        r matches Ok(id) ==> forall|i: int|
            0 <= i < old(npt).installed().len() ==> (#[trigger] old(npt).installed()[i]).id != id,
{
}

/// Two mappings made one after the other have different ids.
pub proof fn ids_are_not_reused(
    first: &mut InMemoryNpt,
    second: &mut InMemoryNpt,
    a: (GuestPhysAddr, HostPhysAddr, u64, Perms),
    b: (GuestPhysAddr, HostPhysAddr, u64, Perms),
    ia: u64,
    ib: u64,
)
    requires
        call_ensures(
            <InMemoryNpt as Npt>::map,
            (first, a.0, a.1, a.2, a.3),
            Ok::<u64, MmError>(ia),
        ),
        old(second).next() == final(first).next(),
        call_ensures(
            <InMemoryNpt as Npt>::map,
            (second, b.0, b.1, b.2, b.3),
            Ok::<u64, MmError>(ib),
        ),
    ensures
        ia < ib,
{
}

/// Unmapping takes back what mapping did: the table holds what it held before.
pub proof fn unmapping_takes_back_a_mapping(
    first: &mut InMemoryNpt,
    second: &mut InMemoryNpt,
    gpa: GuestPhysAddr,
    hpa: HostPhysAddr,
    len: u64,
    perms: Perms,
    id: u64,
    r: Result<(), MmError>,
)
    requires
        call_ensures(
            <InMemoryNpt as Npt>::map,
            (first, gpa, hpa, len, perms),
            Ok::<u64, MmError>(id),
        ),
        *old(second) == *final(first),
        call_ensures(<InMemoryNpt as Npt>::unmap, (second, id), r),
    ensures
        r is Ok,
        final(second).installed() == old(first).installed(),
{
    let s = old(first).installed();
    let t = old(second).installed();
    assert(t[s.len() as int].id == id);
    let i = choose|i: int|
        0 <= i < t.len() && (#[trigger] t[i]).id == id && final(second).installed() == t.remove(i);
    if i < s.len() {
        assert(s[i] == t[i]);
    }
    assert(t.remove(i) =~= s);
}

/// Unmapping succeeds exactly for an id that is in use, takes one mapping with
/// that id away and no other.
pub proof fn unmapping_takes_one_mapping(
    npt: &mut InMemoryNpt,
    id: u64,
    r: Result<(), MmError>,
)
    requires
        call_ensures(<InMemoryNpt as Npt>::unmap, (npt, id), r),
    ensures
        r is Ok <==> exists|i: int|
            0 <= i < old(npt).installed().len() && (#[trigger] old(npt).installed()[i]).id == id,
        r is Ok ==> final(npt).installed().len() + 1 == old(npt).installed().len(),
        r is Err ==> r == Err::<(), MmError>(MmError::UnknownMapping(id))
            && final(npt).installed() == old(npt).installed(),
        forall|m: NptMapping|
            m.id != id ==> (#[trigger] final(npt).installed().contains(m)
                <==> old(npt).installed().contains(m)),
{
    let (s, t) = (old(npt).installed(), final(npt).installed());
    if r is Ok {
        let i = choose|i: int|
            0 <= i < s.len() && (#[trigger] s[i]).id == id && t == s.remove(i);
        assert forall|m: NptMapping| m.id != id implies (#[trigger] t.contains(m) <==> s.contains(
            m,
        )) by {
            if s.contains(m) {
                let k = choose|k: int| 0 <= k < s.len() && s[k] == m;
                if k < i {
                    assert(t[k] == m);
                } else {
                    assert(t[k - 1] == m);
                }
            }
            if t.contains(m) {
                let k = choose|k: int| 0 <= k < t.len() && t[k] == m;
                if k < i {
                    assert(s[k] == m);
                } else {
                    assert(s[k + 1] == m);
                }
            }
        }
    }
}

// ------------------------------------------------------------- permissions

/// No two of the three ready-made permissions are the same, all of them read,
/// and none of them both writes and executes.
pub proof fn ready_made_permissions(ro: Perms, rw: Perms, rx: Perms)
    requires
        call_ensures(Perms::ro, (), ro),
        call_ensures(Perms::rw, (), rw),
        call_ensures(Perms::rx, (), rx),
    ensures
        ro.r && rw.r && rx.r,
        ro != rw && rw != rx && ro != rx,
        rw.w && !ro.w && !rx.w,
        rx.x && !ro.x && !rw.x,
{
}

// ------------------------------------------------------------------ ranges

/// Host address `x` lies in a range. The topmost address belongs to none.
pub open spec fn held(start: u64, len: u64, x: u64) -> bool {
    start <= x < u64::MAX && x - start < len
}

/// Ranges that share an address overlap, and non-empty ranges that overlap share
/// one.
pub proof fn overlap_is_a_shared_address(a: &HostPhysRange, b: &HostPhysRange, r: bool)
    requires
        call_ensures(HostPhysRange::overlaps, (a, b), r),
    ensures
        forall|x: u64|
            #[trigger] held(a.start.0, a.len, x) && held(b.start.0, b.len, x) ==> r,
        r && held(a.start.0, a.len, a.start.0) && held(b.start.0, b.len, b.start.0) ==> exists|
            x: u64,
        |
            #[trigger] held(a.start.0, a.len, x) && held(b.start.0, b.len, x),
{
    if r && held(a.start.0, a.len, a.start.0) && held(b.start.0, b.len, b.start.0) {
        let x = if a.start.0 < b.start.0 {
            b.start.0
        } else {
            a.start.0
        };
        assert(held(a.start.0, a.len, x) && held(b.start.0, b.len, x));
    }
}

/// Overlap does not depend on which range is asked.
pub proof fn overlap_is_symmetric(a: &HostPhysRange, b: &HostPhysRange, r: bool, q: bool)
    requires
        call_ensures(HostPhysRange::overlaps, (a, b), r),
        call_ensures(HostPhysRange::overlaps, (b, a), q),
    ensures
        r == q,
{
}

/// A region ends as far behind its start as it is long.
pub proof fn region_end_is_start_and_length(g: &GuestMemoryRegion, r: u64)
    requires
        call_ensures(GuestMemoryRegion::gpa_end, (g,), r),
    ensures
        g.gpa_start.0 + g.len <= u64::MAX ==> r - g.gpa_start.0 == g.len,
        g.gpa_start.0 + g.len > u64::MAX ==> r == u64::MAX,
{
}

// ---------------------------------------------------------------- zeroizer

/// Page `p` holds an address of `[start, start + len)`.
pub open spec fn page_of_range(start: u64, len: u64, p: u64) -> bool {
    exists|x: u64| start <= x && x - start < len && #[trigger] (x / 4096) == p
}

proof fn touched_is_page_of_range(start: u64, len: u64, p: u64)
    ensures
        mm::touches(start, len, p) <==> page_of_range(start, len, p),
{
    if mm::touches(start, len, p) {
        let first = mm::first_frame(start);
        let last = mm::last_frame(start, len);
        let x: u64 = if p == first {
            start
        } else {
            (p * 4096) as u64
        };
        assert(first == start / 4096);
        assert(p > first ==> p * 4096 > start && p * 4096 <= u64::MAX) by (nonlinear_arith)
            requires
                first == start / 4096,
                p <= last,
                last <= u64::MAX / 4096,
        ;
        let top = mm::end_of(start, (len - 1) as u64);
        assert(p * 4096 <= top) by (nonlinear_arith)
            requires
                p <= last,
                last == top / 4096,
        ;
        assert(x / 4096 == p);
        assert(start <= x && x - start < len);
    }
    if page_of_range(start, len, p) {
        let x = choose|x: u64| start <= x && x - start < len && #[trigger] (x / 4096) == p;
        let top = mm::end_of(start, (len - 1) as u64);
        assert(x <= top);
        assert(start / 4096 <= x / 4096 <= top / 4096) by (nonlinear_arith)
            requires
                start <= x <= top,
        ;
    }
}

/// A page that was marked is in the marked state wherever it is asked for, and a
/// page that holds no address of the range is as it was.
pub proof fn marking_zeroes_the_pages_of_the_range(
    z: &mut PageZeroizer,
    earlier: &PageZeroizer,
    later: &PageZeroizer,
    hpa: HostPhysAddr,
    len: u64,
    u: (),
    x: HostPhysAddr,
    before: Option<PageState>,
    after: Option<PageState>,
)
    requires
        call_ensures(PageZeroizer::mark_zeroed, (z, hpa, len), u),
        *earlier == *old(z),
        *later == *final(z),
        call_ensures(PageZeroizer::state, (earlier, x), before),
        call_ensures(PageZeroizer::state, (later, x), after),
    ensures
        page_of_range(hpa.0, len, x.0 / 4096) ==> after == Some(PageState::Zeroed),
        !page_of_range(hpa.0, len, x.0 / 4096) ==> after == before,
{
    touched_is_page_of_range(hpa.0, len, x.0 / 4096);
}

/// Poisoning reaches every page that holds an address of the range, and no other.
pub proof fn poisoning_reaches_the_pages_of_the_range(
    z: &mut PageZeroizer,
    earlier: &PageZeroizer,
    later: &PageZeroizer,
    hpa: HostPhysAddr,
    len: u64,
    u: (),
    x: HostPhysAddr,
    before: Option<PageState>,
    after: Option<PageState>,
)
    requires
        call_ensures(PageZeroizer::poison, (z, hpa, len), u),
        *earlier == *old(z),
        *later == *final(z),
        call_ensures(PageZeroizer::state, (earlier, x), before),
        call_ensures(PageZeroizer::state, (later, x), after),
    ensures
        page_of_range(hpa.0, len, x.0 / 4096) ==> after == Some(PageState::Poisoned),
        !page_of_range(hpa.0, len, x.0 / 4096) ==> after == before,
{
    touched_is_page_of_range(hpa.0, len, x.0 / 4096);
}

/// Pages are assigned only where each of them was zeroed: after a success every
/// page of the range was zeroed and is assigned; after a failure nothing has
/// changed.
pub proof fn only_zeroed_pages_are_assigned(
    z: &mut PageZeroizer,
    earlier: &PageZeroizer,
    later: &PageZeroizer,
    hpa: HostPhysAddr,
    len: u64,
    r: Result<(), MmError>,
    x: HostPhysAddr,
    before: Option<PageState>,
    after: Option<PageState>,
)
    requires
        call_ensures(PageZeroizer::assign, (z, hpa, len), r),
        *earlier == *old(z),
        *later == *final(z),
        call_ensures(PageZeroizer::state, (earlier, x), before),
        call_ensures(PageZeroizer::state, (later, x), after),
    ensures
        r is Ok && page_of_range(hpa.0, len, x.0 / 4096) ==> before == Some(PageState::Zeroed)
            && after == Some(PageState::Assigned),
        r is Ok && !page_of_range(hpa.0, len, x.0 / 4096) ==> after == before,
        r is Err ==> after == before,
        len == 0 <==> r == Err::<(), MmError>(MmError::ZeroLength),
{
    touched_is_page_of_range(hpa.0, len, x.0 / 4096);
    if r is Ok && page_of_range(hpa.0, len, x.0 / 4096) {
        assert(mm::zeroed(old(z)@, x.0 / 4096));
    }
}

/// Every page zeroed is enough for an assignment, and is what being zeroed means;
/// a failure names the lowest page that is not zeroed by what is known of it.
pub proof fn zeroed_pages_can_be_assigned(
    z: &mut PageZeroizer,
    earlier: &PageZeroizer,
    hpa: HostPhysAddr,
    len: u64,
    r: Result<(), MmError>,
    all: bool,
)
    requires
        call_ensures(PageZeroizer::assign, (z, hpa, len), r),
        *earlier == *old(z),
        call_ensures(PageZeroizer::is_zeroed, (earlier, hpa, len), all),
        len > 0,
    ensures
        r is Ok <==> all,
        all <==> forall|p: u64|
            page_of_range(hpa.0, len, p) ==> #[trigger] earlier@.contains_key(p) && earlier@[p]
                == PageState::Zeroed,
        r matches Err(e) ==> exists|p: u64|
            {
                &&& #[trigger] page_of_range(hpa.0, len, p)
                &&& !(earlier@.contains_key(p) && earlier@[p] == PageState::Zeroed)
                &&& forall|q: u64|
                    q < p && #[trigger] page_of_range(hpa.0, len, q) ==> earlier@.contains_key(q)
                        && earlier@[q] == PageState::Zeroed
                &&& e == MmError::PagePoisoned || e == MmError::PageNotZeroed
                &&& e == MmError::PagePoisoned <==> earlier@.contains_key(p) && earlier@[p]
                    == PageState::Poisoned
            },
{
    let frames = earlier@;
    assert forall|p: u64| mm::touches(hpa.0, len, p) <==> #[trigger] page_of_range(
        hpa.0,
        len,
        p,
    ) by {
        touched_is_page_of_range(hpa.0, len, p);
    }
    if all {
        assert forall|p: u64| page_of_range(
            hpa.0,
            len,
            p,
        ) implies #[trigger] earlier@.contains_key(p) && earlier@[p] == PageState::Zeroed by {
            assert(mm::zeroed(frames, p));
        }
        assert(forall|p: u64|
            page_of_range(hpa.0, len, p) ==> #[trigger] earlier@.contains_key(p) && earlier@[p]
                == PageState::Zeroed);
    } else {
        let f = lowest_unzeroed(frames, hpa.0, len, choose|f: u64|
            mm::touches(hpa.0, len, f) && !#[trigger] mm::zeroed(frames, f));
        let g = choose|g: u64| mm::first_unzeroed(frames, hpa.0, len, g);
        assert(mm::first_unzeroed(frames, hpa.0, len, f));
        assert(page_of_range(hpa.0, len, g));
        assert(!(earlier@.contains_key(g) && earlier@[g] == PageState::Zeroed));
        assert(!(forall|p: u64|
            page_of_range(hpa.0, len, p) ==> #[trigger] earlier@.contains_key(p) && earlier@[p]
                == PageState::Zeroed));
        assert forall|q: u64| q < g && #[trigger] page_of_range(hpa.0, len, q) implies frames.contains_key(
            q,
        ) && frames[q] == PageState::Zeroed by {
            assert(mm::zeroed(frames, q));
        }
    }
}

proof fn lowest_unzeroed(frames: Map<u64, PageState>, start: u64, len: u64, f: u64) -> (g: u64)
    requires
        mm::touches(start, len, f),
        !mm::zeroed(frames, f),
    ensures
        mm::first_unzeroed(frames, start, len, g),
    decreases f,
{
    if exists|g: u64| g < f && mm::touches(start, len, g) && !#[trigger] mm::zeroed(frames, g) {
        let g = choose|g: u64|
            g < f && mm::touches(start, len, g) && !#[trigger] mm::zeroed(frames, g);
        lowest_unzeroed(frames, start, len, g)
    } else {
        f
    }
}

// ------------------------------------------------------------------- quota

/// Memory is reserved exactly as far as it fits under the cap, and what is
/// reserved is what is no longer available.
pub proof fn reservations_stay_under_the_cap(
    q: &mut MemoryQuotaManager,
    mb: u64,
    r: Result<(), MmError>,
    earlier: &MemoryQuotaManager,
    later: &MemoryQuotaManager,
    before: u64,
    after: u64,
)
    requires
        call_ensures(MemoryQuotaManager::try_reserve, (q, mb), r),
        *earlier == *old(q),
        *later == *final(q),
        call_ensures(MemoryQuotaManager::available_mb, (earlier,), before),
        call_ensures(MemoryQuotaManager::available_mb, (later,), after),
        old(q).used_mb <= old(q).max_mb,
    ensures
        before + old(q).used_mb == old(q).max_mb,
        r is Ok <==> old(q).used_mb + mb <= old(q).max_mb,
        r is Ok ==> before - after == mb,
        r is Err ==> *final(q) == *old(q),
        r is Err ==> r == Err::<(), MmError>(
            MmError::QuotaExceeded { requested_mb: mb, available_mb: before },
        ),
        final(q).max_mb == old(q).max_mb,
{
}

/// Releasing takes back a reservation, and never frees more than is used.
pub proof fn release_takes_back_a_reservation(
    q: &mut MemoryQuotaManager,
    p: &mut MemoryQuotaManager,
    mb: u64,
    more: u64,
    u: (),
)
    requires
        call_ensures(MemoryQuotaManager::try_reserve, (q, mb), Ok::<(), MmError>(())),
        *old(p) == *final(q),
        call_ensures(MemoryQuotaManager::release, (p, more), u),
    ensures
        more == mb ==> *final(p) == *old(q),
        final(p).used_mb <= old(p).used_mb,
        more <= old(p).used_mb ==> old(p).used_mb - final(p).used_mb == more,
{
}

// ------------------------------------------------------------------- traps

/// Guest address `x` lies in a guest range. The topmost address belongs to none.
pub open spec fn in_guest_range(range: GuestPhysRange, x: u64) -> bool {
    held(range.start.0, range.len, x)
}

/// A trap is found exactly where one holds the address, and then it is the one
/// that was registered first.
pub proof fn traps_are_found_by_address<'a>(
    t: &'a MmioTrapRegistry,
    x: GuestPhysAddr,
    r: Option<&'a MmioTrapRange>,
)
    requires
        call_ensures(MmioTrapRegistry::lookup, (t, x), r),
    ensures
        r is Some <==> exists|i: int|
            0 <= i < t@.len() && in_guest_range((#[trigger] t@[i]).range, x.0),
        r matches Some(found) ==> in_guest_range(found.range, x.0) && t@.contains(*found),
        r matches Some(found) ==> forall|i: int|
            0 <= i < t@.len() && in_guest_range((#[trigger] t@[i]).range, x.0) ==> exists|k: int|
                0 <= k <= i && t@[k] == *found,
{
    if let Some(found) = r {
        let i = choose|i: int| #[trigger] mm::first_trap(t@, x.0, i) && t@[i] == *found;
        assert(in_guest_range(t@[i].range, x.0));
        assert forall|j: int|
            0 <= j < t@.len() && in_guest_range(
                (#[trigger] t@[j]).range,
                x.0,
            ) implies exists|k: int| 0 <= k <= j && t@[k] == *found by {
            assert(i <= j);
            assert(t@[i] == *found);
        }
    } else if exists|i: int|
        0 <= i < t@.len() && in_guest_range((#[trigger] t@[i]).range, x.0) {
        let i = choose|i: int|
            0 <= i < t@.len() && in_guest_range((#[trigger] t@[i]).range, x.0);
        assert(!mm::covers(t@[i].range.start.0, t@[i].range.len, x.0));
    }
}

/// Adding a trapped region traps its addresses; adding another region leaves the
/// traps alone. Either way the region is the last of the map's regions.
pub proof fn trapped_regions_are_trapped(
    m: &mut GuestMemoryMap,
    region: GuestMemoryRegion,
    device: &str,
    u: (),
    traps: &MmioTrapRegistry,
    x: GuestPhysAddr,
    r: Option<&MmioTrapRange>,
)
    requires
        call_ensures(GuestMemoryMap::add_region, (m, region, device), u),
        *traps == final(m).mmio_traps,
        call_ensures(MmioTrapRegistry::lookup, (traps, x), r),
        held(region.gpa_start.0, region.len, x.0),
    ensures
        region.kind == RegionKind::MmioTrap ==> r is Some,
        region.kind != RegionKind::MmioTrap ==> final(m).mmio_traps == old(m).mmio_traps,
        final(m).regions@.len() == old(m).regions@.len() + 1,
        final(m).regions@.last() == region,
        final(m).regions@.drop_last() == old(m).regions@,
{
    assert(final(m).regions@.drop_last() =~= old(m).regions@);
    if region.kind == RegionKind::MmioTrap {
        traps_are_found_by_address(traps, x, r);
        let i = traps@.len() - 1;
        assert(in_guest_range(traps@[i].range, x.0));
    }
}

/// A region is found exactly where one holds the address, and then it is the one
/// that was added first.
pub proof fn regions_are_found_by_address<'a>(
    m: &'a GuestMemoryMap,
    x: GuestPhysAddr,
    r: Option<&'a GuestMemoryRegion>,
)
    requires
        call_ensures(GuestMemoryMap::region_at, (m, x), r),
    ensures
        r is Some <==> exists|i: int|
            0 <= i < m.regions@.len() && held(
                (#[trigger] m.regions@[i]).gpa_start.0,
                m.regions@[i].len,
                x.0,
            ),
        r matches Some(found) ==> held(found.gpa_start.0, found.len, x.0),
        r matches Some(found) ==> forall|i: int|
            0 <= i < m.regions@.len() && held(
                (#[trigger] m.regions@[i]).gpa_start.0,
                m.regions@[i].len,
                x.0,
            ) ==> exists|k: int| 0 <= k <= i && m.regions@[k] == *found,
{
    if let Some(found) = r {
        let s = m.regions@;
        let i = choose|i: int| #[trigger] mm::first_region(s, x.0, i) && s[i] == *found;
        assert(s[i] == *found);
        assert forall|j: int|
            0 <= j < s.len() && held(
                (#[trigger] s[j]).gpa_start.0,
                s[j].len,
                x.0,
            ) implies exists|k: int| 0 <= k <= j && s[k] == *found by {
            assert(i <= j);
            assert(s[i] == *found);
        }
    }
}

// --------------------------------------------------------- enforcing table

/// A mapping that the enforcing table takes is not empty, does not both write
/// and execute, shares no address with the reserved range, and every page of it
/// was zeroed; afterwards every page of it is assigned, and no other page has
/// changed.
pub proof fn taken_mapping_is_safe<N: Npt>(
    t: &mut NestedPageTable<N>,
    gpa: GuestPhysAddr,
    hpa: HostPhysAddr,
    len: u64,
    perms: Perms,
    id: u64,
    x: u64,
    p: u64,
)
    requires
        call_ensures(
            <NestedPageTable<N> as Npt>::map,
            (t, gpa, hpa, len, perms),
            Ok::<u64, MmError>(id),
        ),
    ensures
        len > 0,
        !perms.w || !perms.x,
        old(t).reserved() matches Some(res) ==> !(held(hpa.0, len, x) && held(
            res.start.0,
            res.len,
            x,
        )),
        page_of_range(hpa.0, len, p) ==> {
            &&& old(t).frames().contains_key(p) && old(t).frames()[p] == PageState::Zeroed
            &&& final(t).frames().contains_key(p) && final(t).frames()[p] == PageState::Assigned
        },
        !page_of_range(hpa.0, len, p) ==> {
            &&& final(t).frames().contains_key(p) == old(t).frames().contains_key(p)
            &&& old(t).frames().contains_key(p) ==> final(t).frames()[p] == old(t).frames()[p]
        },
        final(t).records().contains_key(id),
        final(t).records()[id].gpa == gpa && final(t).records()[id].hpa == hpa,
        final(t).records()[id].len == len && final(t).records()[id].perms == perms,
        forall|k: u64| k != id ==> {
            &&& #[trigger] final(t).records().contains_key(k) == old(t).records().contains_key(k)
            &&& old(t).records().contains_key(k) ==> final(t).records()[k] == old(t).records()[k]
        },
        final(t).reserved() == old(t).reserved(),
{
    touched_is_page_of_range(hpa.0, len, p);
    if page_of_range(hpa.0, len, p) {
        assert(mm::zeroed(old(t).frames(), p));
    }
}

/// Each refusal has its own ground: an empty mapping first, then one that both
/// writes and executes, then one that shares an address with the reserved range.
/// Whatever is refused changes no page and records nothing.
pub proof fn unsafe_mapping_is_refused<N: Npt>(
    t: &mut NestedPageTable<N>,
    gpa: GuestPhysAddr,
    hpa: HostPhysAddr,
    len: u64,
    perms: Perms,
    r: Result<u64, MmError>,
    x: u64,
)
    requires
        call_ensures(<NestedPageTable<N> as Npt>::map, (t, gpa, hpa, len, perms), r),
    ensures
        len == 0 ==> r == Err::<u64, MmError>(MmError::ZeroLength),
        len > 0 && perms.w && perms.x ==> r == Err::<u64, MmError>(MmError::WriteExecuteForbidden),
        len > 0 && !(perms.w && perms.x) && old(t).reserved() is Some && held(hpa.0, len, x)
            && held(old(t).reserved()->0.start.0, old(t).reserved()->0.len, x) ==> r == Err::<
            u64,
            MmError,
        >(MmError::OverlapsReservedHostRange),
        len == 0 || (perms.w && perms.x) ==> final(t).frames() == old(t).frames()
            && final(t).installed() == old(t).installed(),
        r is Err ==> final(t).records() == old(t).records() && final(t).installed()
            == old(t).installed(),
{
}

/// Nothing else stands in the way: a mapping that is not empty, does not both
/// write and execute, stays clear of the reserved range and has every page zeroed
/// is decided by the wrapped table alone.
pub proof fn safe_mapping_is_passed_on<N: Npt>(
    t: &mut NestedPageTable<N>,
    gpa: GuestPhysAddr,
    hpa: HostPhysAddr,
    len: u64,
    perms: Perms,
    r: Result<u64, MmError>,
)
    requires
        call_ensures(<NestedPageTable<N> as Npt>::map, (t, gpa, hpa, len, perms), r),
        len > 0,
        !perms.w || !perms.x,
        old(t).reserved() matches Some(res) ==> hpa.0 + len <= res.start.0 || res.start.0 + res.len
            <= hpa.0,
        forall|p: u64|
            page_of_range(hpa.0, len, p) ==> #[trigger] old(t).frames().contains_key(p) && old(t).frames()[p] == PageState::Zeroed,
    ensures
        r == old(t).table().map_result(gpa, hpa, len, perms),
{
    assert forall|p: u64| mm::touches(hpa.0, len, p) implies #[trigger] mm::zeroed(
        old(t).frames(),
        p,
    ) by {
        touched_is_page_of_range(hpa.0, len, p);
        assert(old(t).frames().contains_key(p));
    }
}

/// Freeing poisons: every page of the unmapped range is poisoned, every other
/// page is as it was, and only the one record is gone.
pub proof fn unmapping_poisons_its_pages<N: Npt>(
    t: &mut NestedPageTable<N>,
    id: u64,
    p: u64,
)
    requires
        call_ensures(<NestedPageTable<N> as Npt>::unmap, (t, id), Ok::<(), MmError>(())),
        old(t).records().contains_key(id),
    ensures
        page_of_range(old(t).records()[id].hpa.0, old(t).records()[id].len, p) ==> final(t).frames().contains_key(p) && final(t).frames()[p] == PageState::Poisoned,
        !page_of_range(old(t).records()[id].hpa.0, old(t).records()[id].len, p) ==> {
            &&& final(t).frames().contains_key(p) == old(t).frames().contains_key(p)
            &&& old(t).frames().contains_key(p) ==> final(t).frames()[p] == old(t).frames()[p]
        },
        !final(t).records().contains_key(id),
        forall|k: u64| k != id ==> {
            &&& #[trigger] final(t).records().contains_key(k) == old(t).records().contains_key(k)
            &&& old(t).records().contains_key(k) ==> final(t).records()[k] == old(t).records()[k]
        },
{
    let m = old(t).records()[id];
    touched_is_page_of_range(m.hpa.0, m.len, p);
}

/// An allocation records what it was asked for, and obeys the same rules as a
/// mapping; its pages are zeroed on the way and assigned at the end.
pub proof fn allocation_is_safe<N: Npt>(
    t: &mut NestedPageTable<N>,
    owner: VmId,
    gpa: GuestPhysAddr,
    hpa: HostPhysAddr,
    len: u64,
    perms: Perms,
    a: AllocationRecord,
    x: u64,
    p: u64,
)
    requires
        call_ensures(
            NestedPageTable::<N>::allocate,
            (t, owner, gpa, hpa, len, perms),
            Ok::<AllocationRecord, MmError>(a),
        ),
    ensures
        len > 0,
        !perms.w || !perms.x,
        old(t).reserved() matches Some(res) ==> !(held(hpa.0, len, x) && held(
            res.start.0,
            res.len,
            x,
        )),
        page_of_range(hpa.0, len, p) ==> final(t).frames().contains_key(p) && final(t).frames()[p]
            == PageState::Assigned,
        a.owner_vm_id == owner,
        a.guest_physical_range.start == gpa && a.guest_physical_range.len == len,
        a.host_physical_range.start == hpa && a.host_physical_range.len == len,
        a.zeroed_before_assign,
        final(t).records().contains_key(a.npt_mapping_id),
        final(t).records()[a.npt_mapping_id].hpa == hpa,
        final(t).records()[a.npt_mapping_id].gpa == gpa,
        final(t).records()[a.npt_mapping_id].len == len,
        final(t).records()[a.npt_mapping_id].perms == perms,
        final(t).reserved() == old(t).reserved(),
{
    touched_is_page_of_range(hpa.0, len, p);
}

/// An enforcing table translates as the table in it does.
pub proof fn enforcing_table_translates_alike(
    t: &NestedPageTable<InMemoryNpt>,
    inner: &InMemoryNpt,
    x: GuestPhysAddr,
    r: Option<HostPhysAddr>,
    q: Option<HostPhysAddr>,
)
    requires
        call_ensures(NestedPageTable::<InMemoryNpt>::inner, (t,), inner),
        call_ensures(<NestedPageTable<InMemoryNpt> as Npt>::translate, (t, x), r),
        call_ensures(<InMemoryNpt as Npt>::translate, (inner, x), q),
    ensures
        r == q,
{
}

/// The two questions about a table are answered by its records: whether one both
/// writes and executes, and whether one shares an address with the reserved range.
pub proof fn table_questions_speak_of_the_records<N: Npt>(
    t: &NestedPageTable<N>,
    wx: bool,
    text: bool,
    id: u64,
    x: u64,
)
    requires
        call_ensures(NestedPageTable::<N>::has_writable_executable_pages, (t,), wx),
        call_ensures(NestedPageTable::<N>::maps_host_hypervisor_text, (t,), text),
        t.records().contains_key(id),
    ensures
        t.records()[id].perms.w && t.records()[id].perms.x ==> wx,
        wx ==> exists|k: u64| #[trigger]
            t.records().contains_key(k) && t.records()[k].perms.w && t.records()[k].perms.x,
        t.reserved() matches Some(res) && held(
            t.records()[id].hpa.0,
            t.records()[id].len,
            x,
        ) && held(res.start.0, res.len, x) ==> text,
        t.reserved() is None ==> !text,
{
}

} // verus!
