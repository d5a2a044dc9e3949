//! Guest memory model and nested-page-table orchestration.
//!
//! The nested page table denies by default, and the enforcing wrapper keeps
//! three invariants: no page is writable and executable, no mapping overlaps
//! the reserved host range, and every host page is zeroed before it is
//! assigned to a guest.
use vstd::prelude::*;
use vstd::std_specs::cmp::OrdSpec;
use vstd::std_specs::iter::IteratorSpec;

use std::collections::BTreeMap;

use crate::text;

pub mod laws;

verus! {

/// Page size used for zeroization and assignment bookkeeping (4 KiB).
pub const PAGE_SIZE: u64 = 4096;

/// Schema version of the documents of this module.
pub const SCHEMA_VERSION: u32 = 1;

/// Guest physical address.
#[derive(Debug, Clone, Copy, PartialEq, Eq, PartialOrd, Ord, Hash, Structural)]
pub struct GuestPhysAddr(pub u64);

/// Host physical address.
#[derive(Debug, Clone, Copy, PartialEq, Eq, PartialOrd, Ord, Hash, Structural)]
pub struct HostPhysAddr(pub u64);

/// Opaque, stable identifier for a virtual machine.
#[derive(Debug, PartialEq, Eq, PartialOrd, Ord, Hash)]
pub struct VmId(pub String);

impl Clone for VmId {
    fn clone(&self) -> (r: Self)
        ensures
            r == *self,
    {
        VmId(self.0.clone())
    }
}

impl VmId {
    /// The identifier with this text.
    pub fn new(id: &str) -> (r: Self)
        ensures
            r.0@ == id@,
    {
        VmId(id.to_string())
    }

    /// The identifier's text.
    pub fn as_str(&self) -> (r: &str)
        ensures
            r@ == self.0@,
    {
        self.0.as_str()
    }
}

// ------------------------------------------------------------ permissions

/// Read, write and execute permission bits for a mapping.
#[derive(Debug, Clone, Copy, PartialEq, Eq, Structural)]
pub struct Perms {
    pub r: bool,
    pub w: bool,
    pub x: bool,
}

impl Perms {
    /// Read-only.
    pub fn ro() -> (p: Perms)
        ensures
            p == (Perms { r: true, w: false, x: false }),
    {
        Perms { r: true, w: false, x: false }
    }

    /// Read-write (no execute).
    pub fn rw() -> (p: Perms)
        ensures
            p == (Perms { r: true, w: true, x: false }),
    {
        Perms { r: true, w: true, x: false }
    }

    /// Read-execute (no write).
    pub fn rx() -> (p: Perms)
        ensures
            p == (Perms { r: true, w: false, x: true }),
    {
        Perms { r: true, w: false, x: true }
    }

    /// Whether both writable and executable, which is forbidden.
    pub fn is_write_execute(&self) -> (r: bool)
        ensures
            r == (self.w && self.x),
    {
        self.w && self.x
    }
}

// ----------------------------------------------------------------- ranges

/// The end of `[start, start + len)`, cut off at the top of the address space.
pub open spec fn end_of(start: u64, len: u64) -> u64 {
    if start + len > u64::MAX {
        u64::MAX
    } else {
        (start + len) as u64
    }
}

fn end(start: u64, len: u64) -> (r: u64)
    ensures
        r == end_of(start, len),
{
    start.saturating_add(len)
}

/// Address `a` lies in `[start, start + len)`.
pub open spec fn covers(start: u64, len: u64, a: u64) -> bool {
    start <= a < end_of(start, len)
}

/// Classification of a guest memory region.
#[derive(Debug, Clone, Copy, PartialEq, Eq, Structural)]
pub enum RegionKind {
    GuestRam,
    GuestRom,
    MmioTrap,
    SharedVirtioRing,
    GuardPage,
}

/// A contiguous region of the guest physical address space.
#[derive(Debug, Clone, Copy, PartialEq, Eq, Structural)]
pub struct GuestMemoryRegion {
    pub gpa_start: GuestPhysAddr,
    pub len: u64,
    pub kind: RegionKind,
    pub perms: Perms,
}

impl GuestMemoryRegion {
    /// Exclusive end of the region.
    pub fn gpa_end(&self) -> (r: u64)
        ensures
            r == end_of(self.gpa_start.0, self.len),
    {
        end(self.gpa_start.0, self.len)
    }
}

/// A guest-physical `[start, start + len)` range.
#[derive(Debug, Clone, Copy, PartialEq, Eq, Structural)]
pub struct GuestPhysRange {
    pub start: GuestPhysAddr,
    pub len: u64,
}

/// A host-physical `[start, start + len)` range.
#[derive(Debug, Clone, Copy, PartialEq, Eq, Structural)]
pub struct HostPhysRange {
    pub start: HostPhysAddr,
    pub len: u64,
}

impl HostPhysRange {
    /// The two half-open ranges overlap.
    pub open spec fn meets(self, other: HostPhysRange) -> bool {
        self.start.0 < end_of(other.start.0, other.len) && other.start.0 < end_of(
            self.start.0,
            self.len,
        )
    }

    /// Whether this range overlaps `other` (half-open intervals).
    pub fn overlaps(&self, other: &HostPhysRange) -> (r: bool)
        ensures
            r == self.meets(*other),
    {
        self.start.0 < end(other.start.0, other.len) && other.start.0 < end(
            self.start.0,
            self.len,
        )
    }
}

/// Two non-empty ranges overlap exactly where some address lies in both.
pub proof fn ranges_meet_iff_shared(a: HostPhysRange, b: HostPhysRange)
    requires
        a.start.0 < end_of(a.start.0, a.len),
        b.start.0 < end_of(b.start.0, b.len),
    ensures
        a.meets(b) <==> exists|x: u64|
            covers(a.start.0, a.len, x) && #[trigger] covers(b.start.0, b.len, x),
{
    if a.meets(b) {
        let x = if a.start.0 < b.start.0 {
            b.start.0
        } else {
            a.start.0
        };
        assert(covers(a.start.0, a.len, x) && covers(b.start.0, b.len, x));
    }
}

// ----------------------------------------------------------------- errors

/// Errors produced by the memory-management layer.
#[derive(Debug, Clone, Copy, PartialEq, Eq, Structural)]
pub enum MmError {
    /// A mapping has no length.
    ZeroLength,
    /// A mapping is writable and executable.
    WriteExecuteForbidden,
    /// A mapping overlaps the reserved host range.
    OverlapsReservedHostRange,
    /// A host page was not zeroed before assignment.
    PageNotZeroed,
    /// A host page is poisoned until it is zeroed again.
    PagePoisoned,
    /// No mapping has this id.
    UnknownMapping(u64),
    /// More memory was asked for than is left.
    QuotaExceeded { requested_mb: u64, available_mb: u64 },
}

impl MmError {
    /// The text of the error.
    pub open spec fn text(self) -> Seq<char> {
        match self {
            MmError::ZeroLength => "zero-length mapping is not allowed"@,
            MmError::WriteExecuteForbidden =>
                "writable+executable mapping rejected (W^X violation)"@,
            MmError::OverlapsReservedHostRange =>
                "mapping host range overlaps the reserved host/hypervisor range"@,
            MmError::PageNotZeroed => "target host page(s) not zeroed before assignment"@,
            MmError::PagePoisoned =>
                "host page is poisoned and cannot be assigned until re-zeroed"@,
            MmError::UnknownMapping(id) => "unknown mapping id "@ + text::decimal(id as nat),
            MmError::QuotaExceeded { requested_mb, available_mb } =>
                "memory quota exceeded: requested "@ + text::decimal(requested_mb as nat)
                    + " MB, "@ + text::decimal(available_mb as nat) + " MB available"@,
        }
    }

    /// The error as one line of text.
    pub fn message(&self) -> (r: String)
        ensures
            r@ == self.text(),
    {
        match self {
            MmError::ZeroLength => "zero-length mapping is not allowed".to_string(),
            MmError::WriteExecuteForbidden => {
                "writable+executable mapping rejected (W^X violation)".to_string()
            },
            MmError::OverlapsReservedHostRange => {
                "mapping host range overlaps the reserved host/hypervisor range".to_string()
            },
            MmError::PageNotZeroed => {
                "target host page(s) not zeroed before assignment".to_string()
            },
            MmError::PagePoisoned => {
                "host page is poisoned and cannot be assigned until re-zeroed".to_string()
            },
            MmError::UnknownMapping(id) => text::joined(
                "unknown mapping id ",
                text::decimal_text(*id).as_str(),
            ),
            MmError::QuotaExceeded { requested_mb, available_mb } => {
                let mut out = "memory quota exceeded: requested ".to_string();
                out.append(text::decimal_text(*requested_mb).as_str());
                out.append(" MB, ");
                out.append(text::decimal_text(*available_mb).as_str());
                out.append(" MB available");
                out
            },
        }
    }
}

// -------------------------------------------------------------- Npt trait

/// A single recorded mapping.
#[derive(Debug, Clone, Copy, PartialEq, Eq, Structural)]
pub struct NptMapping {
    pub id: u64,
    pub gpa: GuestPhysAddr,
    pub hpa: HostPhysAddr,
    pub len: u64,
    pub perms: Perms,
}

impl NptMapping {
    /// Where guest address `gpa` of this mapping lies in host memory.
    pub open spec fn host_of(self, gpa: u64) -> HostPhysAddr {
        HostPhysAddr(end_of(self.hpa.0, (gpa - self.gpa.0) as u64))
    }
}

/// The translation by the first mapping that covers `gpa`.
pub open spec fn translated(s: Seq<NptMapping>, gpa: u64) -> Option<HostPhysAddr>
    decreases s.len(),
{
    if s.len() == 0 {
        None
    } else if covers(s[0].gpa.0, s[0].len, gpa) {
        Some(s[0].host_of(gpa))
    } else {
        translated(s.drop_first(), gpa)
    }
}

/// `after` is `before` without the mapping `id`, which was there.
pub open spec fn unmapped(before: Seq<NptMapping>, after: Seq<NptMapping>, id: u64) -> bool {
    exists|i: int|
        0 <= i < before.len() && (#[trigger] before[i]).id == id && after == before.remove(i)
}

/// A mapping with this id is installed.
pub open spec fn has_mapping(s: Seq<NptMapping>, id: u64) -> bool {
    exists|i: int| 0 <= i < s.len() && (#[trigger] s[i]).id == id
}

/// Nested page table abstraction. Denies by default: `translate` returns `None`
/// for any address that has not been explicitly mapped.
pub trait Npt {
    /// The installed mappings, in the order in which they are looked at.
    spec fn installed(&self) -> Seq<NptMapping>;

    /// How many mapping ids can still be given out.
    spec fn ids_left(&self) -> nat;

    /// What mapping returns: the id, or why there is none.
    spec fn map_result(
        &self,
        gpa: GuestPhysAddr,
        hpa: HostPhysAddr,
        len: u64,
        perms: Perms,
    ) -> Result<u64, MmError>;

    /// What unmapping returns.
    spec fn unmap_result(&self, mapping_id: u64) -> Result<(), MmError>;

    /// Install a mapping `[gpa, gpa + len)` to `[hpa, hpa + len)` with `perms`.
    /// Returns a stable, deterministic mapping id.
    fn map(&mut self, gpa: GuestPhysAddr, hpa: HostPhysAddr, len: u64, perms: Perms) -> (r: Result<
        u64,
        MmError,
    >)
        requires
            old(self).ids_left() > 0,
        ensures
            r == old(self).map_result(gpa, hpa, len, perms),
            final(self).ids_left() + 1 >= old(self).ids_left(),
            match r {
                Ok(id) => final(self).installed() == old(self).installed().push(
                    NptMapping { id, gpa, hpa, len, perms },
                ),
                Err(_) => final(self).installed() == old(self).installed(),
            },
    ;

    /// Remove a previously installed mapping.
    fn unmap(&mut self, mapping_id: u64) -> (r: Result<(), MmError>)
        ensures
            r == old(self).unmap_result(mapping_id),
            final(self).ids_left() == old(self).ids_left(),
            r is Ok ==> unmapped(old(self).installed(), final(self).installed(), mapping_id),
            r is Err ==> final(self).installed() == old(self).installed(),
    ;

    /// Translate a guest physical address, or `None` if unmapped.
    fn translate(&self, gpa: GuestPhysAddr) -> (r: Option<HostPhysAddr>)
        ensures
            r == translated(self.installed(), gpa.0),
    ;
}

/// The mappings with an id below `n`, by id.
spec fn by_id(m: Map<u64, NptMapping>, n: nat) -> Seq<NptMapping>
    decreases n,
{
    if n == 0 {
        Seq::empty()
    } else {
        let id = (n - 1) as u64;
        let front = by_id(m, (n - 1) as nat);
        if m.contains_key(id) {
            front.push(m[id])
        } else {
            front
        }
    }
}

/// Maps that agree on the ids below `n` list the same mappings.
proof fn by_id_agrees(a: Map<u64, NptMapping>, b: Map<u64, NptMapping>, n: nat)
    requires
        n <= u64::MAX,
        forall|id: u64|
            id < n ==> a.contains_key(id) == #[trigger] b.contains_key(id) && (b.contains_key(id)
                ==> a[id] == b[id]),
    ensures
        by_id(a, n) == by_id(b, n),
    decreases n,
{
    if n > 0 {
        by_id_agrees(a, b, (n - 1) as nat);
        assert(a.contains_key((n - 1) as u64) == b.contains_key((n - 1) as u64));
    }
}

/// Every mapping stands under its own id.
spec fn under_own_id(m: Map<u64, NptMapping>) -> bool {
    forall|id: u64| #[trigger] m.contains_key(id) ==> m[id].id == id
}

/// The listed mappings are those of the map, in ascending order of their ids.
proof fn by_id_lists(m: Map<u64, NptMapping>, n: nat)
    requires
        n <= u64::MAX,
        under_own_id(m),
    ensures
        forall|i: int|
            0 <= i < by_id(m, n).len() ==> (#[trigger] by_id(m, n)[i]).id < n && m.contains_key(
                by_id(m, n)[i].id,
            ),
        forall|i: int, j: int|
            0 <= i < j < by_id(m, n).len() ==> (#[trigger] by_id(m, n)[i]).id < (
            #[trigger] by_id(m, n)[j]).id,
    decreases n,
{
    if n > 0 {
        let (front, all) = (by_id(m, (n - 1) as nat), by_id(m, n));
        by_id_lists(m, (n - 1) as nat);
        assert forall|i: int| 0 <= i < all.len() implies (#[trigger] all[i]).id < n
            && m.contains_key(all[i].id) by {
            if i < front.len() {
                assert(all[i] == front[i]);
            }
        }
        assert forall|i: int, j: int| 0 <= i < j < all.len() implies (#[trigger] all[i]).id < (
        #[trigger] all[j]).id by {
            assert(all[i] == front[i]);
            if j < front.len() {
                assert(all[j] == front[j]);
            }
        }
    }
}

/// A mapping of the map is listed, and without it the others stay as they are.
proof fn by_id_without(m: Map<u64, NptMapping>, n: nat, id: u64) -> (i: int)
    requires
        id < n <= u64::MAX,
        m.contains_key(id),
        under_own_id(m),
    ensures
        0 <= i < by_id(m, n).len(),
        by_id(m, n)[i].id == id,
        by_id(m.remove(id), n) == by_id(m, n).remove(i),
    decreases n,
{
    let k = (n - 1) as nat;
    let all = by_id(m, n);
    if id == k {
        by_id_agrees(m.remove(id), m, k);
        assert(all.remove(all.len() - 1) =~= by_id(m, k));
        all.len() - 1
    } else {
        let i = by_id_without(m, k, id);
        assert(by_id(m.remove(id), n) =~= all.remove(i));
        i
    }
}

/// Walking the keys in ascending order lists the mappings by id.
proof fn ascending_keys_list_by_id(m: Map<u64, NptMapping>, n: nat, keys: Seq<u64>)
    requires
        n <= u64::MAX,
        forall|i: int, j: int| 0 <= i < j < keys.len() ==> #[trigger] keys[i] < #[trigger] keys[j],
        forall|i: int| 0 <= i < keys.len() ==> m.contains_key(#[trigger] keys[i]) && keys[i] < n,
        forall|id: u64| #[trigger] m.contains_key(id) && id < n ==> keys.contains(id),
    ensures
        by_id(m, n).len() == keys.len(),
        forall|i: int| 0 <= i < keys.len() ==> #[trigger] by_id(m, n)[i] == m[keys[i]],
    decreases n,
{
    if n == 0 {
        if keys.len() > 0 {
            assert(keys[0] < n);
        }
    } else {
        let id = (n - 1) as u64;
        let k = (n - 1) as nat;
        if m.contains_key(id) {
            let at = choose|at: int| 0 <= at < keys.len() && keys[at] == id;
            assert(keys[keys.len() - 1] < n);
            assert(at == keys.len() - 1);
            let front = keys.drop_last();
            assert forall|x: u64| #[trigger] m.contains_key(x) && x < k implies front.contains(x) by {
                let w = choose|w: int| 0 <= w < keys.len() && keys[w] == x;
                assert(front[w] == x);
            }
            ascending_keys_list_by_id(m, k, front);
        } else {
            ascending_keys_list_by_id(m, k, keys);
        }
    }
}

/// In-memory page table that records every mapping. Mapping ids come from a
/// counter, so they are deterministic.
#[derive(Debug)]
pub struct InMemoryNpt {
    next_id: u64,
    mappings: BTreeMap<u64, NptMapping>,
}

impl InMemoryNpt {
    /// Every mapping stands under its own id, and ids are below the counter.
    #[verifier::type_invariant]
    spec fn counted(&self) -> bool {
        &&& under_own_id(self.mappings@)
        &&& forall|id: u64| #[trigger] self.mappings@.contains_key(id) ==> id < self.next_id
    }

    /// The id that the next mapping gets.
    pub closed spec fn next(&self) -> u64 {
        self.next_id
    }

    /// No mappings, ids from zero.
    pub fn new() -> (r: Self)
        ensures
            r.installed() == Seq::<NptMapping>::empty(),
            r.next() == 0,
            r.ids_left() == u64::MAX,
    {
        InMemoryNpt { next_id: 0, mappings: BTreeMap::new() }
    }

    /// All currently installed mappings, ordered by id.
    pub fn mappings(&self) -> (r: Vec<NptMapping>)
        ensures
            r@ == self.installed(),
            forall|i: int, j: int|
                0 <= i < j < r@.len() ==> (#[trigger] r@[i]).id < (#[trigger] r@[j]).id,
    {
        proof {
            use_type_invariant(&*self);
            by_id_lists(self.mappings@, self.next_id as nat);
        }
        let values = self.mappings.values();
        let ghost order = values.remaining();
        proof {
            walked_by_id(self.mappings@, self.next_id as nat, order);
        }
        let mut out: Vec<NptMapping> = Vec::new();
        for m in it: values
            invariant
                it.seq() == order,
                order.len() == self.installed().len(),
                forall|i: int|
                    0 <= i < order.len() ==> *(#[trigger] order[i]) == self.installed()[i],
                out@.len() == it.index(),
                forall|i: int| 0 <= i < it.index() ==> #[trigger] out@[i] == self.installed()[i],
        {
            assert(m == order[it.index() as int]);
            out.push(*m);
        }
        assert(out@ =~= self.installed());
        out
    }

    /// Number of installed mappings.
    pub fn len(&self) -> (r: usize)
        ensures
            r == self.installed().len(),
    {
        proof {
            use_type_invariant(&*self);
            by_id_len(self.mappings@, self.next_id as nat);
        }
        self.mappings.len()
    }

    /// Whether no mappings are installed.
    pub fn is_empty(&self) -> (r: bool)
        ensures
            r == (self.installed().len() == 0),
    {
        proof {
            use_type_invariant(&*self);
            by_id_len(self.mappings@, self.next_id as nat);
        }
        self.mappings.is_empty()
    }
}

/// As many mappings are listed as there are.
proof fn by_id_len(m: Map<u64, NptMapping>, n: nat)
    requires
        n <= u64::MAX,
        m.dom().finite(),
        forall|id: u64| #[trigger] m.contains_key(id) ==> id < n,
    ensures
        by_id(m, n).len() == m.len(),
        m.is_empty() == (m.len() == 0),
    decreases n,
{
    if n == 0 {
        assert(m.dom() =~= Set::empty());
        assert(m =~= Map::empty());
    } else {
        let id = (n - 1) as u64;
        if m.contains_key(id) {
            let rest = m.remove(id);
            by_id_len(rest, (n - 1) as nat);
            by_id_agrees(rest, m, (n - 1) as nat);
        } else {
            by_id_len(m, (n - 1) as nat);
        }
    }
}

/// What a walk over the map's values in the order of its keys gives.
proof fn walked_by_id(m: Map<u64, NptMapping>, n: nat, walked: Seq<&NptMapping>)
    requires
        n <= u64::MAX,
        forall|id: u64| #[trigger] m.contains_key(id) ==> id < n,
        exists|keys: Seq<u64>|
            #![trigger vstd::std_specs::btree::increasing_seq(keys)]
            vstd::std_specs::btree::increasing_seq(keys) && keys.to_set() == m.dom()
                && walked == keys.map(|i: int, k: u64| &m[k]),
    ensures
        walked.len() == by_id(m, n).len(),
        forall|i: int| 0 <= i < walked.len() ==> *(#[trigger] walked[i]) == by_id(m, n)[i],
{
    let keys = choose|keys: Seq<u64>|
        #![trigger vstd::std_specs::btree::increasing_seq(keys)]
        vstd::std_specs::btree::increasing_seq(keys) && keys.to_set() == m.dom()
            && walked == keys.map(|i: int, k: u64| &m[k]);
    assert forall|i: int| 0 <= i < keys.len() implies m.contains_key(#[trigger] keys[i]) by {
        assert(keys.to_set().contains(keys[i]));
    }
    assert forall|id: u64| #[trigger] m.contains_key(id) implies keys.contains(id) by {
        assert(keys.to_set().contains(id));
    }
    assert forall|i: int, j: int| 0 <= i < j < keys.len() implies #[trigger] keys[i]
        < #[trigger] keys[j] by {
        assert(keys[i].cmp_spec(&keys[j]) is Less);
    }
    ascending_keys_list_by_id(m, n, keys);
}

impl Default for InMemoryNpt {
    fn default() -> (r: Self)
        ensures
            r.installed() == Seq::<NptMapping>::empty(),
            r.next() == 0,
    {
        Self::new()
    }
}

impl Npt for InMemoryNpt {
    closed spec fn installed(&self) -> Seq<NptMapping> {
        by_id(self.mappings@, self.next_id as nat)
    }

    closed spec fn ids_left(&self) -> nat {
        (u64::MAX - self.next_id) as nat
    }

    open spec fn map_result(
        &self,
        gpa: GuestPhysAddr,
        hpa: HostPhysAddr,
        len: u64,
        perms: Perms,
    ) -> Result<u64, MmError> {
        if len == 0 {
            Err(MmError::ZeroLength)
        } else {
            Ok(self.next())
        }
    }

    open spec fn unmap_result(&self, mapping_id: u64) -> Result<(), MmError> {
        if has_mapping(self.installed(), mapping_id) {
            Ok(())
        } else {
            Err(MmError::UnknownMapping(mapping_id))
        }
    }

    fn map(&mut self, gpa: GuestPhysAddr, hpa: HostPhysAddr, len: u64, perms: Perms) -> (r: Result<
        u64,
        MmError,
    >)
        ensures
            final(self).next() == old(self).next() + (if len == 0 {
                0int
            } else {
                1int
            }),
            r matches Ok(id) ==> forall|i: int|
                0 <= i < old(self).installed().len() ==> (#[trigger] old(self).installed()[i]).id
                    < id,
    {
        if len == 0 {
            return Err(MmError::ZeroLength);
        }
        proof {
            use_type_invariant(&*self);
        }
        let id: u64 = self.next_id;
        let ghost before = self.mappings@;
        proof {
            by_id_lists(before, id as nat);
        }
        let mut mappings: BTreeMap<u64, NptMapping> = BTreeMap::new();
        std::mem::swap(&mut mappings, &mut self.mappings);
        self.next_id = id + 1;
        mappings.insert(id, NptMapping { id, gpa, hpa, len, perms });
        proof {
            by_id_agrees(before, mappings@, id as nat);
        }
        self.mappings = mappings;
        Ok(id)
    }

    fn unmap(&mut self, mapping_id: u64) -> (r: Result<(), MmError>)
        ensures
            final(self).next() == old(self).next(),
    {
        let ghost before = self.mappings@;
        let ghost n = self.next_id as nat;
        proof {
            use_type_invariant(&*self);
            by_id_lists(before, n);
        }
        let mut mappings: BTreeMap<u64, NptMapping> = BTreeMap::new();
        std::mem::swap(&mut mappings, &mut self.mappings);
        let removed = mappings.remove(&mapping_id);
        proof {
            if before.contains_key(mapping_id) {
                let i = by_id_without(before, n, mapping_id);
                assert(old(self).installed()[i].id == mapping_id);
            } else {
                assert(mappings@ =~= before);
            }
        }
        self.mappings = mappings;
        match removed {
            Some(_) => Ok(()),
            None => Err(MmError::UnknownMapping(mapping_id)),
        }
    }

    fn translate(&self, gpa: GuestPhysAddr) -> (r: Option<HostPhysAddr>) {
        let ghost all = self.installed();
        proof {
            use_type_invariant(self);
            assert(all.skip(0) =~= all);
        }
        let values = self.mappings.values();
        let ghost order = values.remaining();
        proof {
            walked_by_id(self.mappings@, self.next_id as nat, order);
        }
        for m in it: values
            invariant
                it.seq() == order,
                all == self.installed(),
                order.len() == all.len(),
                forall|i: int| 0 <= i < all.len() ==> *(#[trigger] order[i]) == all[i],
                translated(all, gpa.0) == translated(all.skip(it.index() as int), gpa.0),
        {
            let ghost rest = all.skip(it.index() as int);
            assert(m == order[it.index() as int]);
            assert(rest[0] == *m);
            assert(rest.drop_first() =~= all.skip(it.index() as int + 1));
            let start: u64 = m.gpa.0;
            if gpa.0 >= start && gpa.0 < end(start, m.len) {
                let offset: u64 = gpa.0 - start;
                return Some(HostPhysAddr(end(m.hpa.0, offset)));
            }
        }
        None
    }
}

// ----------------------------------------------------------- page zeroizer

/// State of a host page frame in the zeroization lifecycle.
#[derive(Debug, Clone, Copy, PartialEq, Eq, Structural)]
pub enum PageState {
    /// Zeroed and eligible for assignment.
    Zeroed,
    /// Currently assigned to a guest.
    Assigned,
    /// Freed and poisoned; must be zeroed again before reuse.
    Poisoned,
}

/// The first page frame of `[start, start + len)`.
pub open spec fn first_frame(start: u64) -> u64 {
    start / PAGE_SIZE
}

/// The last page frame that `[start, start + len)` touches, for `len > 0`.
pub open spec fn last_frame(start: u64, len: u64) -> u64 {
    end_of(start, (len - 1) as u64) / PAGE_SIZE
}

/// Frame `f` is touched by `[start, start + len)`.
pub open spec fn touches(start: u64, len: u64, f: u64) -> bool {
    len > 0 && first_frame(start) <= f <= last_frame(start, len)
}

/// The frames with every one that `[start, start + len)` touches in `state`.
pub open spec fn with_frames(
    frames: Map<u64, PageState>,
    start: u64,
    len: u64,
    state: PageState,
) -> Map<u64, PageState> {
    Map::new(
        |f: u64| frames.contains_key(f) || touches(start, len, f),
        |f: u64|
            if touches(start, len, f) {
                state
            } else {
                frames[f]
            },
    )
}

/// Frame `f` is zeroed.
pub open spec fn zeroed(frames: Map<u64, PageState>, f: u64) -> bool {
    frames.contains_key(f) && frames[f] == PageState::Zeroed
}

/// Every frame that `[start, start + len)` touches is zeroed, and there is one.
pub open spec fn all_zeroed(frames: Map<u64, PageState>, start: u64, len: u64) -> bool {
    len > 0 && forall|f: u64| touches(start, len, f) ==> #[trigger] zeroed(frames, f)
}

/// Frame `f` is the lowest of the touched frames that is not zeroed.
pub open spec fn first_unzeroed(
    frames: Map<u64, PageState>,
    start: u64,
    len: u64,
    f: u64,
) -> bool {
    &&& touches(start, len, f)
    &&& !zeroed(frames, f)
    &&& forall|g: u64| touches(start, len, g) && g < f ==> #[trigger] zeroed(frames, g)
}

/// Why `[start, start + len)` cannot be assigned.
pub open spec fn assign_error(
    frames: Map<u64, PageState>,
    start: u64,
    len: u64,
) -> Option<MmError> {
    if len == 0 {
        Some(MmError::ZeroLength)
    } else if all_zeroed(frames, start, len) {
        None
    } else {
        let f = choose|f: u64| first_unzeroed(frames, start, len, f);
        if frames.contains_key(f) && frames[f] == PageState::Poisoned {
            Some(MmError::PagePoisoned)
        } else {
            Some(MmError::PageNotZeroed)
        }
    }
}

/// Tracks the zeroization state of host page frames. Pages must be explicitly
/// marked zeroed before they can be assigned; freeing a page poisons it.
#[derive(Debug)]
pub struct PageZeroizer {
    frames: BTreeMap<u64, PageState>,
}

impl View for PageZeroizer {
    type V = Map<u64, PageState>;

    closed spec fn view(&self) -> Map<u64, PageState> {
        self.frames@
    }
}

impl Default for PageZeroizer {
    fn default() -> (r: Self)
        ensures
            r@ == Map::<u64, PageState>::empty(),
    {
        Self::new()
    }
}

impl PageZeroizer {
    /// Nothing is known of any frame.
    pub fn new() -> (r: Self)
        ensures
            r@ == Map::<u64, PageState>::empty(),
    {
        PageZeroizer { frames: BTreeMap::new() }
    }

    fn frame_range(start: u64, len: u64) -> (r: (u64, u64))
        requires
            len > 0,
        ensures
            r.0 == first_frame(start),
            r.1 == last_frame(start, len),
            r.0 <= r.1,
            r.1 < u64::MAX,
    {
        let first: u64 = start / PAGE_SIZE;
        let last: u64 = end(start, len - 1) / PAGE_SIZE;
        (first, last)
    }

    /// Puts every frame that `[start, start + len)` touches into `state`.
    fn set_frames(&mut self, start: u64, len: u64, state: PageState)
        ensures
            final(self)@ == with_frames(old(self)@, start, len, state),
    {
        if len == 0 {
            assert(self@ =~= with_frames(old(self)@, start, len, state));
            return;
        }
        let (first, last) = Self::frame_range(start, len);
        let mut f: u64 = first;
        while f <= last
            invariant
                len > 0,
                first == first_frame(start),
                last == last_frame(start, len),
                first <= f <= last + 1,
                last < u64::MAX,
                forall|g: u64|
                    #![trigger self@.contains_key(g)]
                    self@.contains_key(g) <==> old(self)@.contains_key(g) || first <= g < f,
                forall|g: u64|
                    #![trigger self@[g]]
                    self@.contains_key(g) ==> self@[g] == (if first <= g < f {
                        state
                    } else {
                        old(self)@[g]
                    }),
            decreases last + 1 - f,
        {
            let ghost before = self@;
            self.frames.insert(f, state);
            assert(self@ == before.insert(f, state));
            assert forall|g: u64|
                #![trigger self@.contains_key(g)]
                self@.contains_key(g) <==> old(self)@.contains_key(g) || first <= g <= f by {
                assert(before.contains_key(g) <==> old(self)@.contains_key(g) || first <= g < f);
            }
            assert forall|g: u64|
                #![trigger self@[g]]
                self@.contains_key(g) implies self@[g] == (if first <= g <= f {
                state
            } else {
                old(self)@[g]
            }) by {
                assert(before.contains_key(g) ==> before[g] == (if first <= g < f {
                    state
                } else {
                    old(self)@[g]
                }));
            }
            f = f + 1;
        }
        assert(self@ =~= with_frames(old(self)@, start, len, state));
    }

    /// Mark every page frame covering `[hpa, hpa + len)` as zeroed.
    pub fn mark_zeroed(&mut self, hpa: HostPhysAddr, len: u64)
        ensures
            final(self)@ == with_frames(old(self)@, hpa.0, len, PageState::Zeroed),
    {
        self.set_frames(hpa.0, len, PageState::Zeroed);
    }

    /// Query the state of the frame containing `hpa`.
    pub fn state(&self, hpa: HostPhysAddr) -> (r: Option<PageState>)
        ensures
            r == (if self@.contains_key(hpa.0 / PAGE_SIZE) {
                Some(self@[hpa.0 / PAGE_SIZE])
            } else {
                None
            }),
    {
        let f: u64 = hpa.0 / PAGE_SIZE;
        match self.frames.get(&f) {
            Some(s) => Some(*s),
            None => None,
        }
    }

    /// The lowest frame of `[start, start + len)` that is not zeroed.
    fn find_unzeroed(&self, start: u64, len: u64) -> (r: Option<u64>)
        requires
            len > 0,
        ensures
            match r {
                Some(f) => first_unzeroed(self@, start, len, f),
                None => all_zeroed(self@, start, len),
            },
    {
        let (first, last) = Self::frame_range(start, len);
        let mut f: u64 = first;
        while f <= last
            invariant
                len > 0,
                first == first_frame(start),
                last == last_frame(start, len),
                first <= f <= last + 1,
                last < u64::MAX,
                forall|g: u64| first <= g < f ==> #[trigger] zeroed(self@, g),
            decreases last + 1 - f,
        {
            let ok = match self.frames.get(&f) {
                Some(s) => *s == PageState::Zeroed,
                None => false,
            };
            assert(ok == zeroed(self@, f));
            if !ok {
                return Some(f);
            }
            f = f + 1;
        }
        None
    }

    /// Whether every frame covering `[hpa, hpa + len)` is currently zeroed.
    pub fn is_zeroed(&self, hpa: HostPhysAddr, len: u64) -> (r: bool)
        ensures
            r == all_zeroed(self@, hpa.0, len),
    {
        if len == 0 {
            return false;
        }
        match self.find_unzeroed(hpa.0, len) {
            Some(f) => {
                assert(!zeroed(self@, f));
                false
            },
            None => true,
        }
    }

    /// Requires the frames to be zeroed, then makes them assigned. Fails, and
    /// changes nothing, if any frame is not zeroed.
    pub fn assign(&mut self, hpa: HostPhysAddr, len: u64) -> (r: Result<(), MmError>)
        ensures
            match assign_error(old(self)@, hpa.0, len) {
                Some(e) => r == Err::<(), MmError>(e) && final(self)@ == old(self)@,
                None => r is Ok && final(self)@ == with_frames(
                    old(self)@,
                    hpa.0,
                    len,
                    PageState::Assigned,
                ),
            },
    {
        if len == 0 {
            return Err(MmError::ZeroLength);
        }
        if let Some(f) = self.find_unzeroed(hpa.0, len) {
            proof {
                assert(!zeroed(self@, f));
                let c = choose|g: u64| first_unzeroed(self@, hpa.0, len, g);
                assert(first_unzeroed(self@, hpa.0, len, c));
                assert(c == f) by {
                    if c < f {
                        assert(zeroed(self@, c));
                    } else if f < c {
                        assert(zeroed(self@, f));
                    }
                }
            }
            return match self.frames.get(&f) {
                Some(PageState::Poisoned) => Err(MmError::PagePoisoned),
                _ => Err(MmError::PageNotZeroed),
            };
        }
        self.set_frames(hpa.0, len, PageState::Assigned);
        Ok(())
    }

    /// Poison every frame covering `[hpa, hpa + len)` (called on free).
    pub fn poison(&mut self, hpa: HostPhysAddr, len: u64)
        ensures
            final(self)@ == with_frames(old(self)@, hpa.0, len, PageState::Poisoned),
    {
        self.set_frames(hpa.0, len, PageState::Poisoned);
    }
}

/// A poisoned frame cannot be assigned until it is zeroed again.
pub proof fn poisoned_is_not_assignable(
    frames: Map<u64, PageState>,
    start: u64,
    len: u64,
    f: u64,
)
    requires
        touches(start, len, f),
        frames.contains_key(f),
        frames[f] == PageState::Poisoned,
    ensures
        assign_error(frames, start, len) is Some,
{
    assert(!zeroed(frames, f));
}

/// What was just marked zeroed can be assigned, whatever state it was in.
pub proof fn zeroed_is_assignable(frames: Map<u64, PageState>, start: u64, len: u64)
    requires
        len > 0,
    ensures
        assign_error(with_frames(frames, start, len, PageState::Zeroed), start, len) is None,
{
    let m = with_frames(frames, start, len, PageState::Zeroed);
    assert forall|f: u64| touches(start, len, f) implies #[trigger] zeroed(m, f) by {}
}

// ------------------------------------------------------------------ quota

/// Tracks committed memory against a hard cap, in megabytes.
#[derive(Debug, Clone, Copy, PartialEq, Eq, Structural)]
pub struct MemoryQuotaManager {
    pub max_mb: u64,
    pub used_mb: u64,
}

impl MemoryQuotaManager {
    /// Nothing used of `max_mb`.
    pub fn new(max_mb: u64) -> (r: Self)
        ensures
            r.max_mb == max_mb,
            r.used_mb == 0,
    {
        MemoryQuotaManager { max_mb, used_mb: 0 }
    }

    /// What is left under the cap.
    pub open spec fn left(self) -> u64 {
        if self.used_mb > self.max_mb {
            0
        } else {
            (self.max_mb - self.used_mb) as u64
        }
    }

    /// Megabytes still available.
    pub fn available_mb(&self) -> (r: u64)
        ensures
            r == self.left(),
    {
        self.max_mb.saturating_sub(self.used_mb)
    }

    /// Reserve `mb` megabytes. Fails, and changes nothing, if it would exceed
    /// the cap.
    pub fn try_reserve(&mut self, mb: u64) -> (r: Result<(), MmError>)
        ensures
            r == (if mb > old(self).left() {
                Err::<(), MmError>(
                    MmError::QuotaExceeded { requested_mb: mb, available_mb: old(self).left() },
                )
            } else {
                Ok(())
            }),
            final(self).max_mb == old(self).max_mb,
            final(self).used_mb == (if r is Ok {
                old(self).used_mb + mb
            } else {
                old(self).used_mb as int
            }),
            old(self).used_mb <= old(self).max_mb ==> final(self).used_mb <= final(self).max_mb,
    {
        let available: u64 = self.available_mb();
        if mb > available {
            return Err(MmError::QuotaExceeded { requested_mb: mb, available_mb: available });
        }
        self.used_mb = self.used_mb + mb;
        Ok(())
    }

    /// Release `mb` previously reserved megabytes.
    pub fn release(&mut self, mb: u64)
        ensures
            final(self).max_mb == old(self).max_mb,
            final(self).used_mb == (if mb > old(self).used_mb {
                0int
            } else {
                old(self).used_mb - mb
            }),
            old(self).used_mb <= old(self).max_mb ==> final(self).used_mb <= final(self).max_mb,
    {
        self.used_mb = self.used_mb.saturating_sub(mb);
    }
}

// ------------------------------------------------------------- MMIO traps

/// A registered MMIO trap range within the guest physical space.
#[derive(Debug, Clone, PartialEq, Eq)]
pub struct MmioTrapRange {
    pub range: GuestPhysRange,
    pub device: String,
}

/// Trap `i` is the first that covers `gpa`.
pub open spec fn first_trap(traps: Seq<MmioTrapRange>, gpa: u64, i: int) -> bool {
    &&& 0 <= i < traps.len()
    &&& covers(traps[i].range.start.0, traps[i].range.len, gpa)
    &&& forall|j: int|
        0 <= j < i ==> !covers(
            (#[trigger] traps[j]).range.start.0,
            traps[j].range.len,
            gpa,
        )
}

/// No trap covers `gpa`.
pub open spec fn no_trap(traps: Seq<MmioTrapRange>, gpa: u64) -> bool {
    forall|i: int|
        0 <= i < traps.len() ==> !covers(
            (#[trigger] traps[i]).range.start.0,
            traps[i].range.len,
            gpa,
        )
}

/// Registry of MMIO trap ranges. Lookups are by containment.
#[derive(Debug, Clone, PartialEq, Eq)]
pub struct MmioTrapRegistry {
    traps: Vec<MmioTrapRange>,
}

impl View for MmioTrapRegistry {
    type V = Seq<MmioTrapRange>;

    closed spec fn view(&self) -> Seq<MmioTrapRange> {
        self.traps@
    }
}

impl Default for MmioTrapRegistry {
    fn default() -> (r: Self)
        ensures
            r@.len() == 0,
    {
        Self::new()
    }
}

impl MmioTrapRegistry {
    /// No traps.
    pub fn new() -> (r: Self)
        ensures
            r@.len() == 0,
    {
        MmioTrapRegistry { traps: Vec::new() }
    }

    /// Register a trap range for `device`.
    pub fn register(&mut self, range: GuestPhysRange, device: &str)
        ensures
            final(self)@.len() == old(self)@.len() + 1,
            final(self)@.drop_last() == old(self)@,
            final(self)@.last().range == range,
            final(self)@.last().device@ == device@,
    {
        self.traps.push(MmioTrapRange { range, device: device.to_string() });
        assert(self@.drop_last() =~= old(self)@);
    }

    /// Find the first trap covering `gpa`, if any.
    pub fn lookup(&self, gpa: GuestPhysAddr) -> (r: Option<&MmioTrapRange>)
        ensures
            match r {
                Some(t) => exists|i: int|
                    #[trigger] first_trap(self@, gpa.0, i) && self@[i] == *t,
                None => no_trap(self@, gpa.0),
            },
    {
        let mut i: usize = 0;
        while i < self.traps.len()
            invariant
                i <= self@.len(),
                forall|j: int|
                    0 <= j < i ==> !covers(
                        (#[trigger] self@[j]).range.start.0,
                        self@[j].range.len,
                        gpa.0,
                    ),
            decreases self@.len() - i,
        {
            let t = &self.traps[i];
            let start: u64 = t.range.start.0;
            if gpa.0 >= start && gpa.0 < end(start, t.range.len) {
                assert(first_trap(self@, gpa.0, i as int));
                return Some(t);
            }
            i = i + 1;
        }
        None
    }

    /// All registered traps.
    pub fn traps(&self) -> (r: &[MmioTrapRange])
        ensures
            r@ == self@,
    {
        self.traps.as_slice()
    }
}

// --------------------------------------------------------- enforcing table

/// Record of a single guest memory allocation.
#[derive(Debug, Clone, PartialEq, Eq)]
pub struct AllocationRecord {
    pub guest_physical_range: GuestPhysRange,
    pub host_physical_range: HostPhysRange,
    pub npt_mapping_id: u64,
    pub owner_vm_id: VmId,
    pub zeroed_before_assign: bool,
}

/// Enforcing wrapper around any [`Npt`]. On every `map` it rejects W+X, rejects
/// overlap with the reserved host range, and requires the target pages to be
/// zeroed before assignment.
#[derive(Debug)]
pub struct NestedPageTable<N: Npt> {
    npt: N,
    reserved_host: Option<HostPhysRange>,
    zeroizer: PageZeroizer,
    records: BTreeMap<u64, NptMapping>,
}

/// Why a mapping is refused before any page is looked at.
pub open spec fn refusal(
    reserved: Option<HostPhysRange>,
    hpa: HostPhysAddr,
    len: u64,
    perms: Perms,
) -> Option<MmError> {
    if len == 0 {
        Some(MmError::ZeroLength)
    } else if perms.w && perms.x {
        Some(MmError::WriteExecuteForbidden)
    } else {
        match reserved {
            Some(r) => if (HostPhysRange { start: hpa, len }).meets(r) {
                Some(MmError::OverlapsReservedHostRange)
            } else {
                None
            },
            None => None,
        }
    }
}

/// The host range of a mapping.
pub open spec fn host_range(m: NptMapping) -> HostPhysRange {
    HostPhysRange { start: m.hpa, len: m.len }
}

impl<N: Npt> NestedPageTable<N> {
    /// The wrapped page table.
    pub closed spec fn table(&self) -> N {
        self.npt
    }

    /// The reserved host range.
    pub closed spec fn reserved(&self) -> Option<HostPhysRange> {
        self.reserved_host
    }

    /// The zeroization state of the host frames.
    pub closed spec fn frames(&self) -> Map<u64, PageState> {
        self.zeroizer@
    }

    /// The mappings made through this table, by id.
    pub closed spec fn records(&self) -> Map<u64, NptMapping> {
        self.records@
    }

    /// No recorded mapping is writable and executable.
    pub open spec fn no_wx(&self) -> bool {
        forall|id: u64| #[trigger]
            self.records().contains_key(id) ==> !(self.records()[id].perms.w
                && self.records()[id].perms.x)
    }

    /// No recorded mapping overlaps the reserved range.
    pub open spec fn host_protected(&self) -> bool {
        forall|id: u64| #[trigger]
            self.records().contains_key(id) ==> match self.reserved() {
                Some(r) => !host_range(self.records()[id]).meets(r),
                None => true,
            }
    }

    /// Wrap `npt` with no reserved range configured.
    pub fn new(npt: N) -> (r: Self)
        ensures
            r.table() == npt,
            r.reserved() is None,
            r.frames() == Map::<u64, PageState>::empty(),
            r.records() == Map::<u64, NptMapping>::empty(),
            r.no_wx(),
            r.host_protected(),
    {
        NestedPageTable {
            npt,
            reserved_host: None,
            zeroizer: PageZeroizer::new(),
            records: BTreeMap::new(),
        }
    }

    /// Wrap `npt` and reserve `reserved` for the hypervisor; any mapping
    /// overlapping it will be rejected.
    pub fn with_reserved_host_range(npt: N, reserved: HostPhysRange) -> (r: Self)
        ensures
            r.table() == npt,
            r.reserved() == Some(reserved),
            r.frames() == Map::<u64, PageState>::empty(),
            r.records() == Map::<u64, NptMapping>::empty(),
            r.no_wx(),
            r.host_protected(),
    {
        NestedPageTable {
            npt,
            reserved_host: Some(reserved),
            zeroizer: PageZeroizer::new(),
            records: BTreeMap::new(),
        }
    }

    /// Configure or replace the reserved host range.
    pub fn set_reserved_host_range(&mut self, reserved: HostPhysRange)
        ensures
            final(self).reserved() == Some(reserved),
            final(self).table() == old(self).table(),
            final(self).frames() == old(self).frames(),
            final(self).records() == old(self).records(),
    {
        self.reserved_host = Some(reserved);
    }

    /// Mutable access to the zeroizer (e.g. to mark pages zeroed before map).
    pub fn zeroizer_mut(&mut self) -> (r: &mut PageZeroizer)
        ensures
            r@ == old(self).frames(),
            final(self).frames() == final(r)@,
            final(self).reserved() == old(self).reserved(),
            final(self).table() == old(self).table(),
            final(self).records() == old(self).records(),
    {
        &mut self.zeroizer
    }

    /// Shared access to the zeroizer.
    pub fn zeroizer(&self) -> (r: &PageZeroizer)
        ensures
            r@ == self.frames(),
    {
        &self.zeroizer
    }

    /// Borrow the underlying page table.
    pub fn inner(&self) -> (r: &N)
        ensures
            *r == self.table(),
    {
        &self.npt
    }

    /// Whether a recorded mapping overlaps the reserved range.
    pub fn maps_host_hypervisor_text(&self) -> (r: bool)
        ensures
            r == !self.host_protected(),
    {
        match self.reserved_host {
            Some(reserved) => {
                for m in it: self.records.values()
                    invariant
                        self.reserved_host == Some(reserved),
                        it.seq().unref().to_set() == self.records@.values(),
                        forall|i: int|
                            0 <= i < it.index() ==> !host_range(*#[trigger] it.seq()[i]).meets(
                                reserved,
                            ),
                {
                    let hr = HostPhysRange { start: m.hpa, len: m.len };
                    if hr.overlaps(&reserved) {
                        proof {
                            assert(it.seq().unref()[it.index() as int] == *m);
                            assert(it.seq().unref().to_set().contains(*m));
                            assert(self.records@.values().contains(*m));
                            let id = choose|id: u64|
                                self.records@.contains_key(id) && self.records@[id] == *m;
                            assert(self.records().contains_key(id));
                        }
                        return true;
                    }
                }
                proof {
                    assert forall|id: u64| #[trigger]
                        self.records().contains_key(id) implies !host_range(
                        self.records()[id],
                    ).meets(reserved) by {
                        assert(self.records@.values().contains(self.records@[id]));
                    }
                }
                false
            },
            None => false,
        }
    }

    /// Whether a recorded mapping is writable and executable.
    pub fn has_writable_executable_pages(&self) -> (r: bool)
        ensures
            r == !self.no_wx(),
    {
        for m in it: self.records.values()
            invariant
                it.seq().unref().to_set() == self.records@.values(),
                forall|i: int|
                    0 <= i < it.index() ==> !((#[trigger] it.seq()[i]).perms.w
                        && it.seq()[i].perms.x),
        {
            if m.perms.is_write_execute() {
                proof {
                    assert(it.seq().unref()[it.index() as int] == *m);
                    assert(it.seq().unref().to_set().contains(*m));
                    assert(self.records@.values().contains(*m));
                    let id = choose|id: u64|
                        self.records@.contains_key(id) && self.records@[id] == *m;
                    assert(self.records().contains_key(id));
                }
                return true;
            }
        }
        proof {
            assert forall|id: u64| #[trigger] self.records().contains_key(id) implies !(
            self.records()[id].perms.w && self.records()[id].perms.x) by {
                assert(self.records@.values().contains(self.records@[id]));
            }
        }
        false
    }

    fn enforce(&self, hpa: HostPhysAddr, len: u64, perms: Perms) -> (r: Result<(), MmError>)
        ensures
            match refusal(self.reserved(), hpa, len, perms) {
                Some(e) => r == Err::<(), MmError>(e),
                None => r is Ok,
            },
    {
        if len == 0 {
            return Err(MmError::ZeroLength);
        }
        if perms.is_write_execute() {
            return Err(MmError::WriteExecuteForbidden);
        }
        if let Some(reserved) = self.reserved_host {
            let hr = HostPhysRange { start: hpa, len };
            if hr.overlaps(&reserved) {
                return Err(MmError::OverlapsReservedHostRange);
            }
        }
        Ok(())
    }

    /// Allocate and map a guest region from a host range, producing an
    /// [`AllocationRecord`]. The host range is zeroed before assignment, so
    /// `zeroed_before_assign` is always true on success.
    pub fn allocate(
        &mut self,
        owner: VmId,
        gpa: GuestPhysAddr,
        hpa: HostPhysAddr,
        len: u64,
        perms: Perms,
    ) -> (r: Result<AllocationRecord, MmError>)
        requires
            old(self).ids_left() > 0,
        ensures
            final(self).reserved() == old(self).reserved(),
            old(self).no_wx() ==> final(self).no_wx(),
            old(self).host_protected() ==> final(self).host_protected(),
            match refusal(old(self).reserved(), hpa, len, perms) {
                Some(e) => {
                    &&& r == Err::<AllocationRecord, MmError>(e)
                    &&& final(self).frames() == old(self).frames()
                    &&& final(self).records() == old(self).records()
                    &&& final(self).table() == old(self).table()
                },
                None => {
                    &&& final(self).frames() == with_frames(
                        old(self).frames(),
                        hpa.0,
                        len,
                        PageState::Assigned,
                    )
                    &&& match old(self).table().map_result(gpa, hpa, len, perms) {
                        Ok(id) => {
                            &&& r == Ok::<AllocationRecord, MmError>(
                                AllocationRecord {
                                    guest_physical_range: GuestPhysRange { start: gpa, len },
                                    host_physical_range: HostPhysRange { start: hpa, len },
                                    npt_mapping_id: id,
                                    owner_vm_id: owner,
                                    zeroed_before_assign: true,
                                },
                            )
                            &&& final(self).records() == old(self).records().insert(
                                id,
                                NptMapping { id, gpa, hpa, len, perms },
                            )
                            &&& final(self).installed() == old(self).installed().push(
                                NptMapping { id, gpa, hpa, len, perms },
                            )
                        },
                        Err(e) => {
                            &&& r == Err::<AllocationRecord, MmError>(e)
                            &&& final(self).records() == old(self).records()
                            &&& final(self).installed() == old(self).installed()
                        },
                    }
                },
            },
    {
        match self.enforce(hpa, len, perms) {
            Ok(()) => {},
            Err(e) => {
                return Err(e);
            },
        }
        self.zeroizer.mark_zeroed(hpa, len);
        proof {
            zeroed_is_assignable(old(self).frames(), hpa.0, len);
            assert(self.records() == old(self).records());
            assert(old(self).no_wx() ==> self.no_wx());
            assert(old(self).host_protected() ==> self.host_protected());
        }
        let mapped = self.map(gpa, hpa, len, perms);
        assert(self.frames() =~= with_frames(old(self).frames(), hpa.0, len, PageState::Assigned));
        match mapped {
            Ok(id) => Ok(
                AllocationRecord {
                    guest_physical_range: GuestPhysRange { start: gpa, len },
                    host_physical_range: HostPhysRange { start: hpa, len },
                    npt_mapping_id: id,
                    owner_vm_id: owner,
                    zeroed_before_assign: true,
                },
            ),
            Err(e) => Err(e),
        }
    }
}

impl<N: Npt> Npt for NestedPageTable<N> {
    open spec fn installed(&self) -> Seq<NptMapping> {
        self.table().installed()
    }

    open spec fn ids_left(&self) -> nat {
        self.table().ids_left()
    }

    /// A refused mapping or an unassignable page is reported first; otherwise
    /// the wrapped table decides.
    open spec fn map_result(
        &self,
        gpa: GuestPhysAddr,
        hpa: HostPhysAddr,
        len: u64,
        perms: Perms,
    ) -> Result<u64, MmError> {
        match refusal(self.reserved(), hpa, len, perms) {
            Some(e) => Err(e),
            None => match assign_error(self.frames(), hpa.0, len) {
                Some(e) => Err(e),
                None => self.table().map_result(gpa, hpa, len, perms),
            },
        }
    }

    open spec fn unmap_result(&self, mapping_id: u64) -> Result<(), MmError> {
        self.table().unmap_result(mapping_id)
    }

    fn map(&mut self, gpa: GuestPhysAddr, hpa: HostPhysAddr, len: u64, perms: Perms) -> (r: Result<
        u64,
        MmError,
    >)
        ensures
            final(self).reserved() == old(self).reserved(),
            r matches Ok(id) ==> all_zeroed(old(self).frames(), hpa.0, len) && final(self).records() == old(self).records().insert(id, NptMapping { id, gpa, hpa, len, perms }),
            r is Err ==> final(self).records() == old(self).records(),
            refusal(old(self).reserved(), hpa, len, perms) is Some || assign_error(
                old(self).frames(),
                hpa.0,
                len,
            ) is Some ==> final(self).table() == old(self).table(),
            final(self).frames() == (if refusal(old(self).reserved(), hpa, len, perms) is None
                && assign_error(old(self).frames(), hpa.0, len) is None {
                with_frames(old(self).frames(), hpa.0, len, PageState::Assigned)
            } else {
                old(self).frames()
            }),
            old(self).no_wx() ==> final(self).no_wx(),
            old(self).host_protected() ==> final(self).host_protected(),
    {
        match self.enforce(hpa, len, perms) {
            Ok(()) => {},
            Err(e) => {
                return Err(e);
            },
        }
        match self.zeroizer.assign(hpa, len) {
            Ok(()) => {},
            Err(e) => {
                assert(self.records() == old(self).records());
                return Err(e);
            },
        }
        let id: u64 = match self.npt.map(gpa, hpa, len, perms) {
            Ok(id) => id,
            Err(e) => {
                assert(self.records() == old(self).records());
                return Err(e);
            },
        };
        let ghost before = self.records@;
        self.records.insert(id, NptMapping { id, gpa, hpa, len, perms });
        assert(self.records@ == before.insert(id, NptMapping { id, gpa, hpa, len, perms }));
        proof {
            if old(self).no_wx() {
                assert forall|k: u64| #[trigger] self.records().contains_key(k) implies !(
                self.records()[k].perms.w && self.records()[k].perms.x) by {
                    if k != id {
                        assert(old(self).records().contains_key(k));
                    }
                }
            }
            if old(self).host_protected() {
                assert forall|k: u64| #[trigger] self.records().contains_key(k) implies (
                match self.reserved() {
                    Some(r) => !host_range(self.records()[k]).meets(r),
                    None => true,
                }) by {
                    if k != id {
                        assert(old(self).records().contains_key(k));
                    }
                }
            }
        }
        Ok(id)
    }

    fn unmap(&mut self, mapping_id: u64) -> (r: Result<(), MmError>)
        ensures
            final(self).reserved() == old(self).reserved(),
            r is Err ==> final(self).records() == old(self).records() && final(self).frames()
                == old(self).frames(),
            r is Ok ==> final(self).records() == old(self).records().remove(mapping_id),
            r is Ok ==> final(self).frames() == (if old(self).records().contains_key(mapping_id) {
                with_frames(
                    old(self).frames(),
                    old(self).records()[mapping_id].hpa.0,
                    old(self).records()[mapping_id].len,
                    PageState::Poisoned,
                )
            } else {
                old(self).frames()
            }),
            old(self).no_wx() ==> final(self).no_wx(),
            old(self).host_protected() ==> final(self).host_protected(),
    {
        let out = self.npt.unmap(mapping_id);
        if out.is_err() {
            assert(self.records() == old(self).records());
            return out;
        }
        let ghost before = self.records@;
        if let Some(m) = self.records.remove(&mapping_id) {
            self.zeroizer.poison(m.hpa, m.len);
        }
        assert(self.records@ =~= before.remove(mapping_id));
        proof {
            assert forall|k: u64| #[trigger] self.records().contains_key(k) implies old(self).records().contains_key(k) && old(self).records()[k] == self.records()[k] by {}
        }
        out
    }

    fn translate(&self, gpa: GuestPhysAddr) -> (r: Option<HostPhysAddr>) {
        self.npt.translate(gpa)
    }
}

// -------------------------------------------------------------- memory map

/// Top-level description of a VM's guest memory layout.
#[derive(Debug, Clone, PartialEq, Eq)]
pub struct GuestMemoryMap {
    pub schema_version: u32,
    pub vm_id: VmId,
    pub regions: Vec<GuestMemoryRegion>,
    pub npt_root: u64,
    pub mmio_traps: MmioTrapRegistry,
}

/// Region `i` is the first that contains `gpa`.
pub open spec fn first_region(regions: Seq<GuestMemoryRegion>, gpa: u64, i: int) -> bool {
    &&& 0 <= i < regions.len()
    &&& covers(regions[i].gpa_start.0, regions[i].len, gpa)
    &&& forall|j: int|
        0 <= j < i ==> !covers((#[trigger] regions[j]).gpa_start.0, regions[j].len, gpa)
}

impl GuestMemoryMap {
    /// Create an empty memory map for `vm_id` rooted at `npt_root`.
    pub fn new(vm_id: VmId, npt_root: u64) -> (r: Self)
        ensures
            r.schema_version == SCHEMA_VERSION,
            r.vm_id == vm_id,
            r.regions@.len() == 0,
            r.npt_root == npt_root,
            r.mmio_traps@.len() == 0,
    {
        GuestMemoryMap {
            schema_version: SCHEMA_VERSION,
            vm_id,
            regions: Vec::new(),
            npt_root,
            mmio_traps: MmioTrapRegistry::new(),
        }
    }

    /// Add a region to the map; MMIO regions also register a trap.
    pub fn add_region(&mut self, region: GuestMemoryRegion, device: &str)
        ensures
            final(self).schema_version == old(self).schema_version,
            final(self).vm_id == old(self).vm_id,
            final(self).npt_root == old(self).npt_root,
            final(self).regions@ == old(self).regions@.push(region),
            region.kind != RegionKind::MmioTrap ==> final(self).mmio_traps == old(self).mmio_traps,
            region.kind == RegionKind::MmioTrap ==> {
                let t = final(self).mmio_traps@;
                &&& t.len() == old(self).mmio_traps@.len() + 1
                &&& t.drop_last() == old(self).mmio_traps@
                &&& t.last().range == (GuestPhysRange {
                    start: region.gpa_start,
                    len: region.len,
                })
                &&& t.last().device@ == device@
            },
    {
        if region.kind == RegionKind::MmioTrap {
            self.mmio_traps.register(
                GuestPhysRange { start: region.gpa_start, len: region.len },
                device,
            );
        }
        self.regions.push(region);
    }

    /// Find the first region containing `gpa`, if any.
    pub fn region_at(&self, gpa: GuestPhysAddr) -> (r: Option<&GuestMemoryRegion>)
        ensures
            match r {
                Some(g) => exists|i: int|
                    #[trigger] first_region(self.regions@, gpa.0, i) && self.regions@[i] == *g,
                None => forall|i: int|
                    0 <= i < self.regions@.len() ==> !covers(
                        (#[trigger] self.regions@[i]).gpa_start.0,
                        self.regions@[i].len,
                        gpa.0,
                    ),
            },
    {
        let mut i: usize = 0;
        while i < self.regions.len()
            invariant
                i <= self.regions@.len(),
                forall|j: int|
                    0 <= j < i ==> !covers(
                        (#[trigger] self.regions@[j]).gpa_start.0,
                        self.regions@[j].len,
                        gpa.0,
                    ),
            decreases self.regions@.len() - i,
        {
            let g = &self.regions[i];
            if gpa.0 >= g.gpa_start.0 && gpa.0 < g.gpa_end() {
                assert(first_region(self.regions@, gpa.0, i as int));
                return Some(g);
            }
            i = i + 1;
        }
        None
    }
}

// ------------------------------------------------------------------- laws

/// An address that no mapping covers does not translate, and one that some
/// mapping covers does.
pub proof fn translates_iff_covered(s: Seq<NptMapping>, gpa: u64)
    ensures
        translated(s, gpa) is Some <==> exists|i: int|
            0 <= i < s.len() && covers((#[trigger] s[i]).gpa.0, s[i].len, gpa),
    decreases s.len(),
{
    if s.len() > 0 {
        let rest = s.drop_first();
        translates_iff_covered(rest, gpa);
        if translated(rest, gpa) is Some {
            let i = choose|i: int|
                0 <= i < rest.len() && covers((#[trigger] rest[i]).gpa.0, rest[i].len, gpa);
            assert(s[i + 1] == rest[i]);
        }
        if exists|i: int| 0 <= i < s.len() && covers((#[trigger] s[i]).gpa.0, s[i].len, gpa) {
            let i = choose|i: int|
                0 <= i < s.len() && covers((#[trigger] s[i]).gpa.0, s[i].len, gpa);
            if i > 0 {
                assert(rest[i - 1] == s[i]);
            }
        }
    }
}

/// A mapping that the enforcing table installs is never writable and
/// executable, never touches the reserved range, and all its frames were
/// zeroed.
pub proof fn installed_mapping_is_safe<N: Npt>(
    table: NestedPageTable<N>,
    gpa: GuestPhysAddr,
    hpa: HostPhysAddr,
    len: u64,
    perms: Perms,
)
    requires
        table.map_result(gpa, hpa, len, perms) is Ok,
    ensures
        len > 0,
        !(perms.w && perms.x),
        table.reserved() matches Some(r) ==> !(HostPhysRange { start: hpa, len }).meets(r),
        all_zeroed(table.frames(), hpa.0, len),
{
}

/// Freed pages cannot be mapped again before they are zeroed again: a mapping
/// that is not refused on other grounds is told that they are poisoned.
pub proof fn freed_pages_need_zeroing<N: Npt>(
    after: NestedPageTable<N>,
    frames: Map<u64, PageState>,
    freed: NptMapping,
    gpa: GuestPhysAddr,
    perms: Perms,
)
    requires
        freed.len > 0,
        after.frames() == with_frames(frames, freed.hpa.0, freed.len, PageState::Poisoned),
    ensures
        after.map_result(gpa, freed.hpa, freed.len, perms) == Err::<u64, MmError>(
            match refusal(after.reserved(), freed.hpa, freed.len, perms) {
                Some(e) => e,
                None => MmError::PagePoisoned,
            },
        ),
{
    let f = first_frame(freed.hpa.0);
    assert(touches(freed.hpa.0, freed.len, f));
    assert(!zeroed(after.frames(), f));
    assert(first_unzeroed(after.frames(), freed.hpa.0, freed.len, f));
    let g = choose|g: u64| first_unzeroed(after.frames(), freed.hpa.0, freed.len, g);
    assert(touches(freed.hpa.0, freed.len, g));
}

} // verus!
