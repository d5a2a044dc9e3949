//! What the device bus is for, stated over its calls.
use vstd::prelude::*;

use crate::devices;
use crate::devices::{
    DevError, DeviceAction, DeviceId, DeviceOp, IoPortRoute, IoPortRouteTable, IrqRouteTable,
    MmioRoute, MmioRouteTable, TestDevice, VirtualDevice, VirtualDeviceGraph, Width,
};

verus! {

/// A width covers one, two, four or eight bytes, eight bits each, and its mask
/// keeps just these bits of a value.
pub proof fn width_is_bytes_bits_and_mask(w: &Width, bytes: u64, bits: u32, mask: u64, value: u64)
    requires
        call_ensures(Width::bytes, (w,), bytes),
        call_ensures(Width::bits, (w,), bits),
        call_ensures(Width::mask, (w,), mask),
    ensures
        bits == 8 * bytes,
        *w == Width::Byte ==> bytes == 1 && value & mask == value % 0x100,
        *w == Width::Word ==> bytes == 2 && value & mask == value % 0x1_0000,
        *w == Width::Dword ==> bytes == 4 && value & mask == value % 0x1_0000_0000,
        *w == Width::Qword ==> bytes == 8 && value & mask == value,
{
    assert(value & 0xffu64 == value % 0x100u64) by (bit_vector);
    assert(value & 0xffffu64 == value % 0x1_0000u64) by (bit_vector);
    assert(value & 0xffff_ffffu64 == value % 0x1_0000_0000u64) by (bit_vector);
    assert(value & 0xffff_ffff_ffff_ffffu64 == value) by (bit_vector);
}

/// The value fits the width.
pub open spec fn fits_width(value: u64, w: Width) -> bool {
    match w {
        Width::Byte => value < 0x100,
        Width::Word => value < 0x1_0000,
        Width::Dword => value < 0x1_0000_0000,
        Width::Qword => true,
    }
}

/// What is left of a value in a width.
pub open spec fn cut_to_width(value: u64, w: Width) -> int {
    match w {
        Width::Byte => value as int % 0x100,
        Width::Word => value as int % 0x1_0000,
        Width::Dword => value as int % 0x1_0000_0000,
        Width::Qword => value as int,
    }
}

proof fn widths(value: u64, w: Width)
    ensures
        (value & !w.ones() == 0) == fits_width(value, w),
        value & w.ones() == cut_to_width(value, w),
{
    assert((value & !0xffu64 == 0) == (value < 0x100u64)) by (bit_vector);
    assert((value & !0xffffu64 == 0) == (value < 0x1_0000u64)) by (bit_vector);
    assert((value & !0xffff_ffffu64 == 0) == (value < 0x1_0000_0000u64)) by (bit_vector);
    assert(value & !0xffff_ffff_ffff_ffffu64 == 0) by (bit_vector);
    assert(value & 0xffu64 == value % 0x100u64) by (bit_vector);
    assert(value & 0xffffu64 == value % 0x1_0000u64) by (bit_vector);
    assert(value & 0xffff_ffffu64 == value % 0x1_0000_0000u64) by (bit_vector);
    assert(value & 0xffff_ffff_ffff_ffffu64 == value) by (bit_vector);
}

// ------------------------------------------------------------- mmio routes

/// The route holds the address. The topmost address belongs to none.
pub open spec fn mmio_hit(route: MmioRoute, at: u64) -> bool {
    route.base <= at < u64::MAX && at - route.base < route.len
}

/// Place `at` lies in `[base, base + len)`.
pub open spec fn mmio_inside(base: u64, len: u64, at: u64) -> bool {
    base <= at < u64::MAX && at - base < len
}

proof fn mmio_hit_is_cover(route: MmioRoute, at: u64)
    ensures
        route.covers(at) == mmio_hit(route, at),
{
}

proof fn mmio_first_hit_decides(routes: Seq<MmioRoute>, at: u64, i: int)
    requires
        0 <= i < routes.len(),
        mmio_hit(routes[i], at),
        forall|j: int| 0 <= j < i ==> !mmio_hit(#[trigger] routes[j], at),
    ensures
        devices::mmio_target(routes, at) == Some(
            (routes[i].device_index, (at - routes[i].base) as u64),
        ),
{
    assert(devices::first_mmio_route(routes, at, i));
    let k = choose|k: int| devices::first_mmio_route(routes, at, k);
    assert(devices::first_mmio_route(routes, at, k));
    assert(k == i) by {
        if k < i {
            assert(!mmio_hit(routes[k], at));
        } else if i < k {
            assert(!routes[i].covers(at));
        }
    }
}

proof fn mmio_no_hit_no_target(routes: Seq<MmioRoute>, at: u64)
    requires
        forall|j: int| 0 <= j < routes.len() ==> !mmio_hit(#[trigger] routes[j], at),
    ensures
        devices::mmio_target(routes, at) is None,
{
    if exists|i: int| devices::first_mmio_route(routes, at, i) {
        let i = choose|i: int| devices::first_mmio_route(routes, at, i);
        assert(!mmio_hit(routes[i], at));
    }
}

proof fn mmio_first_hit(routes: Seq<MmioRoute>, at: u64, k: int) -> (i: int)
    requires
        0 <= k < routes.len(),
        mmio_hit(routes[k], at),
    ensures
        0 <= i <= k,
        mmio_hit(routes[i], at),
        forall|j: int| 0 <= j < i ==> !mmio_hit(#[trigger] routes[j], at),
    decreases k,
{
    if exists|j: int| 0 <= j < k && mmio_hit(#[trigger] routes[j], at) {
        let j = choose|j: int| 0 <= j < k && mmio_hit(#[trigger] routes[j], at);
        mmio_first_hit(routes, at, j)
    } else {
        k
    }
}

/// Deny by default: a place is routed exactly where a route holds it, to that
/// route's device, as far behind its start as the place lies behind the route's.
pub proof fn mmio_translation_keeps_the_offset(
    t: &MmioRouteTable,
    at: u64,
    r: Option<(usize, u64)>,
)
    requires
        call_ensures(MmioRouteTable::translate, (t, at), r),
    ensures
        r is Some <==> exists|i: int| 0 <= i < t@.len() && mmio_hit(#[trigger] t@[i], at),
        r matches Some((d, offset)) ==> exists|i: int|
            0 <= i < t@.len() && mmio_hit(#[trigger] t@[i], at) && t@[i].device_index == d
                && t@[i].base + offset == at,
{
    if exists|i: int| 0 <= i < t@.len() && mmio_hit(#[trigger] t@[i], at) {
        let k = choose|i: int| 0 <= i < t@.len() && mmio_hit(#[trigger] t@[i], at);
        let i = mmio_first_hit(t@, at, k);
        mmio_first_hit_decides(t@, at, i);
        assert(mmio_hit(t@[i], at));
    } else {
        mmio_no_hit_no_target(t@, at);
    }
}

/// A route is installed exactly where it is not empty and shares no place with one
/// that is there. It then stands at the end; what is refused changes nothing.
pub proof fn mmio_routes_never_share_a_place(
    t: &mut MmioRouteTable,
    base: u64,
    len: u64,
    device: usize,
    r: Result<(), DevError>,
)
    requires
        call_ensures(MmioRouteTable::insert, (t, base, len, device), r),
        forall|i: int| 0 <= i < old(t)@.len() ==> (#[trigger] old(t)@[i]).len > 0,
    ensures
        len == 0 ==> r == Err::<(), DevError>(DevError::OffsetOutOfRange { offset: base }),
        r is Ok ==> len > 0,
        r is Ok ==> forall|i: int, at: u64|
            0 <= i < old(t)@.len() && #[trigger] mmio_inside(base, len, at) ==> !mmio_hit(
                #[trigger] old(t)@[i],
                at,
            ),
        r is Ok ==> final(t)@.len() == old(t)@.len() + 1 && final(t)@.drop_last() == old(t)@
            && final(t)@.last().base == base && final(t)@.last().len == len
            && final(t)@.last().device_index == device,
        r is Err ==> final(t)@ == old(t)@,
        r is Err && len > 0 ==> exists|i: int, at: u64|
            0 <= i < old(t)@.len() && #[trigger] mmio_inside(base, len, at) && mmio_hit(
                #[trigger] old(t)@[i],
                at,
            ) && r == Err::<(), DevError>(DevError::UnmappedAddress(old(t)@[i].base)),
{
    let s = old(t)@;
    if r is Ok {
        assert(final(t)@.drop_last() =~= s);
        assert forall|i: int, at: u64|
            0 <= i < s.len() && #[trigger] mmio_inside(base, len, at) implies !mmio_hit(
            #[trigger] s[i],
            at,
        ) by {
            if mmio_hit(s[i], at) {
                assert(s[i].meets(base, len));
                let c = mmio_least_conflict(s, base, len, i);
                assert(devices::first_mmio_conflict(s, base, len, c));
            }
        }
    } else if len > 0 {
        let i = choose|i: int| devices::first_mmio_conflict(s, base, len, i);
        let at = if s[i].base < base {
            base
        } else {
            s[i].base
        };
        assert(mmio_inside(base, len, at) && mmio_hit(s[i], at));
    }
}

proof fn mmio_least_conflict(s: Seq<MmioRoute>, base: u64, len: u64, i: int) -> (k: int)
    requires
        0 <= i < s.len(),
        s[i].meets(base, len),
    ensures
        devices::first_mmio_conflict(s, base, len, k),
    decreases i,
{
    if forall|j: int| 0 <= j < i ==> !(#[trigger] s[j]).meets(base, len) {
        i
    } else {
        let j = choose|j: int| 0 <= j < i && (#[trigger] s[j]).meets(base, len);
        mmio_least_conflict(s, base, len, j)
    }
}

/// What an installed route adds: its own places go to its device with their offset,
/// every other place goes where it went.
pub proof fn mmio_route_adds_its_places(
    t: &mut MmioRouteTable,
    earlier: &MmioRouteTable,
    later: &MmioRouteTable,
    base: u64,
    len: u64,
    device: usize,
    at: u64,
    before: Option<(usize, u64)>,
    after: Option<(usize, u64)>,
)
    requires
        call_ensures(MmioRouteTable::insert, (t, base, len, device), Ok::<(), DevError>(())),
        forall|i: int| 0 <= i < old(t)@.len() ==> (#[trigger] old(t)@[i]).len > 0,
        *earlier == *old(t),
        *later == *final(t),
        call_ensures(MmioRouteTable::translate, (earlier, at), before),
        call_ensures(MmioRouteTable::translate, (later, at), after),
    ensures
        mmio_inside(base, len, at) ==> (after matches Some((d, offset)) && d == device && base
            + offset == at),
        !mmio_inside(base, len, at) ==> after == before,
{
    mmio_routes_never_share_a_place(t, base, len, device, Ok::<(), DevError>(()));
    let (s, q) = (earlier@, later@);
    let n = s.len() as int;
    assert(q.drop_last() == s);
    assert(q.last() == q[n]);
    if mmio_inside(base, len, at) {
        assert forall|j: int| 0 <= j < n implies !mmio_hit(#[trigger] q[j], at) by {
            assert(q[j] == q.drop_last()[j]);
            assert(!mmio_hit(s[j], at));
        }
        mmio_first_hit_decides(q, at, n);
    } else {
        assert(!mmio_hit(q[n], at));
        if exists|i: int| 0 <= i < n && mmio_hit(#[trigger] s[i], at) {
            let k = choose|i: int| 0 <= i < n && mmio_hit(#[trigger] s[i], at);
            let i = mmio_first_hit(s, at, k);
            mmio_first_hit_decides(s, at, i);
            assert(q[i] == q.drop_last()[i]);
            assert forall|j: int| 0 <= j < i implies !mmio_hit(#[trigger] q[j], at) by {
                assert(q[j] == q.drop_last()[j]);
                assert(!mmio_hit(s[j], at));
            }
            mmio_first_hit_decides(q, at, i);
        } else {
            assert forall|j: int| 0 <= j < q.len() implies !mmio_hit(#[trigger] q[j], at) by {
                if j < n {
                    assert(q[j] == q.drop_last()[j]);
                    assert(!mmio_hit(s[j], at));
                }
            }
            mmio_no_hit_no_target(q, at);
            mmio_no_hit_no_target(s, at);
        }
    }
}

// ------------------------------------------------------------- io routes

/// The route holds the port.
pub open spec fn io_hit(route: IoPortRoute, at: u16) -> bool {
    route.base <= at && at - route.base < route.len
}

/// Place `at` lies in `[base, base + len)`.
pub open spec fn io_inside(base: u16, len: u16, at: u16) -> bool {
    base <= at && at - base < len
}

proof fn io_hit_is_cover(route: IoPortRoute, at: u16)
    ensures
        route.covers(at) == io_hit(route, at),
{
}

proof fn io_first_hit_decides(routes: Seq<IoPortRoute>, at: u16, i: int)
    requires
        0 <= i < routes.len(),
        io_hit(routes[i], at),
        forall|j: int| 0 <= j < i ==> !io_hit(#[trigger] routes[j], at),
    ensures
        devices::io_target(routes, at) == Some(
            (routes[i].device_index, (at - routes[i].base) as u16),
        ),
{
    assert(devices::first_io_route(routes, at, i));
    let k = choose|k: int| devices::first_io_route(routes, at, k);
    assert(devices::first_io_route(routes, at, k));
    assert(k == i) by {
        if k < i {
            assert(!io_hit(routes[k], at));
        } else if i < k {
            assert(!routes[i].covers(at));
        }
    }
}

proof fn io_no_hit_no_target(routes: Seq<IoPortRoute>, at: u16)
    requires
        forall|j: int| 0 <= j < routes.len() ==> !io_hit(#[trigger] routes[j], at),
    ensures
        devices::io_target(routes, at) is None,
{
    if exists|i: int| devices::first_io_route(routes, at, i) {
        let i = choose|i: int| devices::first_io_route(routes, at, i);
        assert(!io_hit(routes[i], at));
    }
}

proof fn io_first_hit(routes: Seq<IoPortRoute>, at: u16, k: int) -> (i: int)
    requires
        0 <= k < routes.len(),
        io_hit(routes[k], at),
    ensures
        0 <= i <= k,
        io_hit(routes[i], at),
        forall|j: int| 0 <= j < i ==> !io_hit(#[trigger] routes[j], at),
    decreases k,
{
    if exists|j: int| 0 <= j < k && io_hit(#[trigger] routes[j], at) {
        let j = choose|j: int| 0 <= j < k && io_hit(#[trigger] routes[j], at);
        io_first_hit(routes, at, j)
    } else {
        k
    }
}

/// Deny by default: a place is routed exactly where a route holds it, to that
/// route's device, as far behind its start as the place lies behind the route's.
pub proof fn io_translation_keeps_the_offset(
    t: &IoPortRouteTable,
    at: u16,
    r: Option<(usize, u16)>,
)
    requires
        call_ensures(IoPortRouteTable::translate, (t, at), r),
    ensures
        r is Some <==> exists|i: int| 0 <= i < t@.len() && io_hit(#[trigger] t@[i], at),
        r matches Some((d, offset)) ==> exists|i: int|
            0 <= i < t@.len() && io_hit(#[trigger] t@[i], at) && t@[i].device_index == d
                && t@[i].base + offset == at,
{
    if exists|i: int| 0 <= i < t@.len() && io_hit(#[trigger] t@[i], at) {
        let k = choose|i: int| 0 <= i < t@.len() && io_hit(#[trigger] t@[i], at);
        let i = io_first_hit(t@, at, k);
        io_first_hit_decides(t@, at, i);
        assert(io_hit(t@[i], at));
    } else {
        io_no_hit_no_target(t@, at);
    }
}

/// A route is installed exactly where it is not empty and shares no place with one
/// that is there. It then stands at the end; what is refused changes nothing.
pub proof fn io_routes_never_share_a_place(
    t: &mut IoPortRouteTable,
    base: u16,
    len: u16,
    device: usize,
    r: Result<(), DevError>,
)
    requires
        call_ensures(IoPortRouteTable::insert, (t, base, len, device), r),
        forall|i: int| 0 <= i < old(t)@.len() ==> (#[trigger] old(t)@[i]).len > 0,
    ensures
        len == 0 ==> r == Err::<(), DevError>(DevError::UnknownPort(base)),
        r is Ok ==> len > 0,
        r is Ok ==> forall|i: int, at: u16|
            0 <= i < old(t)@.len() && #[trigger] io_inside(base, len, at) ==> !io_hit(
                #[trigger] old(t)@[i],
                at,
            ),
        r is Ok ==> final(t)@.len() == old(t)@.len() + 1 && final(t)@.drop_last() == old(t)@
            && final(t)@.last().base == base && final(t)@.last().len == len
            && final(t)@.last().device_index == device,
        r is Err ==> final(t)@ == old(t)@,
        r is Err && len > 0 ==> exists|i: int, at: u16|
            0 <= i < old(t)@.len() && #[trigger] io_inside(base, len, at) && io_hit(
                #[trigger] old(t)@[i],
                at,
            ) && r == Err::<(), DevError>(DevError::UnknownPort(old(t)@[i].base)),
{
    let s = old(t)@;
    if r is Ok {
        assert(final(t)@.drop_last() =~= s);
        assert forall|i: int, at: u16|
            0 <= i < s.len() && #[trigger] io_inside(base, len, at) implies !io_hit(
            #[trigger] s[i],
            at,
        ) by {
            if io_hit(s[i], at) {
                assert(s[i].meets(base, len));
                let c = io_least_conflict(s, base, len, i);
                assert(devices::first_io_conflict(s, base, len, c));
            }
        }
    } else if len > 0 {
        let i = choose|i: int| devices::first_io_conflict(s, base, len, i);
        let at = if s[i].base < base {
            base
        } else {
            s[i].base
        };
        assert(io_inside(base, len, at) && io_hit(s[i], at));
    }
}

proof fn io_least_conflict(s: Seq<IoPortRoute>, base: u16, len: u16, i: int) -> (k: int)
    requires
        0 <= i < s.len(),
        s[i].meets(base, len),
    ensures
        devices::first_io_conflict(s, base, len, k),
    decreases i,
{
    if forall|j: int| 0 <= j < i ==> !(#[trigger] s[j]).meets(base, len) {
        i
    } else {
        let j = choose|j: int| 0 <= j < i && (#[trigger] s[j]).meets(base, len);
        io_least_conflict(s, base, len, j)
    }
}

/// What an installed route adds: its own places go to its device with their offset,
/// every other place goes where it went.
pub proof fn io_route_adds_its_places(
    t: &mut IoPortRouteTable,
    earlier: &IoPortRouteTable,
    later: &IoPortRouteTable,
    base: u16,
    len: u16,
    device: usize,
    at: u16,
    before: Option<(usize, u16)>,
    after: Option<(usize, u16)>,
)
    requires
        call_ensures(IoPortRouteTable::insert, (t, base, len, device), Ok::<(), DevError>(())),
        forall|i: int| 0 <= i < old(t)@.len() ==> (#[trigger] old(t)@[i]).len > 0,
        *earlier == *old(t),
        *later == *final(t),
        call_ensures(IoPortRouteTable::translate, (earlier, at), before),
        call_ensures(IoPortRouteTable::translate, (later, at), after),
    ensures
        io_inside(base, len, at) ==> (after matches Some((d, offset)) && d == device && base
            + offset == at),
        !io_inside(base, len, at) ==> after == before,
{
    io_routes_never_share_a_place(t, base, len, device, Ok::<(), DevError>(()));
    let (s, q) = (earlier@, later@);
    let n = s.len() as int;
    assert(q.drop_last() == s);
    assert(q.last() == q[n]);
    if io_inside(base, len, at) {
        assert forall|j: int| 0 <= j < n implies !io_hit(#[trigger] q[j], at) by {
            assert(q[j] == q.drop_last()[j]);
            assert(!io_hit(s[j], at));
        }
        io_first_hit_decides(q, at, n);
    } else {
        assert(!io_hit(q[n], at));
        if exists|i: int| 0 <= i < n && io_hit(#[trigger] s[i], at) {
            let k = choose|i: int| 0 <= i < n && io_hit(#[trigger] s[i], at);
            let i = io_first_hit(s, at, k);
            io_first_hit_decides(s, at, i);
            assert(q[i] == q.drop_last()[i]);
            assert forall|j: int| 0 <= j < i implies !io_hit(#[trigger] q[j], at) by {
                assert(q[j] == q.drop_last()[j]);
                assert(!io_hit(s[j], at));
            }
            io_first_hit_decides(q, at, i);
        } else {
            assert forall|j: int| 0 <= j < q.len() implies !io_hit(#[trigger] q[j], at) by {
                if j < n {
                    assert(q[j] == q.drop_last()[j]);
                    assert(!io_hit(s[j], at));
                }
            }
            io_no_hit_no_target(q, at);
            io_no_hit_no_target(s, at);
        }
    }
}

// ------------------------------------------------------------- interrupts

/// A binding is found by a later look-up, and binding one device leaves the others
/// alone.
pub proof fn bound_line_is_found(
    t: &mut IrqRouteTable,
    earlier: &IrqRouteTable,
    later: &IrqRouteTable,
    device: usize,
    line: u8,
    u: (),
    other: usize,
    before: Option<u8>,
    after: Option<u8>,
)
    requires
        call_ensures(IrqRouteTable::insert, (t, device, line), u),
        *earlier == *old(t),
        *later == *final(t),
        call_ensures(IrqRouteTable::irq_for, (earlier, other), before),
        call_ensures(IrqRouteTable::irq_for, (later, other), after),
    ensures
        other == device ==> after == Some(line),
        other != device ==> after == before,
{
    devices::irq_lookup_after_bind(earlier@, device, line, other);
}

/// A device has a line only where a route names it, and then it is that route's.
pub proof fn line_comes_from_a_route(t: &IrqRouteTable, device: usize, r: Option<u8>)
    requires
        call_ensures(IrqRouteTable::irq_for, (t, device), r),
    ensures
        r is Some <==> exists|i: int|
            0 <= i < t@.len() && (#[trigger] t@[i]).device_index == device,
        r matches Some(line) ==> exists|i: int|
            0 <= i < t@.len() && (#[trigger] t@[i]).device_index == device && t@[i].irq == line,
{
    line_from(t@, device);
}

proof fn line_from(s: Seq<devices::IrqRoute>, device: usize)
    ensures
        devices::irq_of(s, device) is Some <==> exists|i: int|
            0 <= i < s.len() && (#[trigger] s[i]).device_index == device,
        devices::irq_of(s, device) matches Some(line) ==> exists|i: int|
            0 <= i < s.len() && (#[trigger] s[i]).device_index == device && s[i].irq == line,
    decreases s.len(),
{
    if s.len() > 0 {
        let rest = s.drop_first();
        line_from(rest, device);
        if s[0].device_index == device {
            assert(s[0].device_index == device && s[0].irq == s[0].irq);
        } else {
            if let Some(line) = devices::irq_of(rest, device) {
                let i = choose|i: int|
                    0 <= i < rest.len() && (#[trigger] rest[i]).device_index == device && rest[i].irq
                        == line;
                assert(s[i + 1] == rest[i]);
            }
            if exists|i: int| 0 <= i < s.len() && (#[trigger] s[i]).device_index == device {
                let i = choose|i: int|
                    0 <= i < s.len() && (#[trigger] s[i]).device_index == device;
                assert(rest[i - 1] == s[i]);
            }
        }
    }
}

// ------------------------------------------------------------------- graph

/// A read goes to the device of the first route that holds the address, with the
/// address counted from the route's start, and its answer comes back; an address
/// that no route holds reaches no device.
pub proof fn dispatch_mmio_read_reaches_the_routed_device<D: VirtualDevice>(
    g: &mut VirtualDeviceGraph<D>,
    at: u64,
    width: Width,
    r: Result<u64, DevError>,
    i: int,
    j: int,
)
    requires
        call_ensures(VirtualDeviceGraph::<D>::dispatch_mmio_read, (g, at, width), r),
        0 <= j < old(g).count(),
    ensures
        0 <= i < old(g).mmio().len() && mmio_hit(old(g).mmio()[i], at) && (forall|k: int|
            0 <= k < i ==> !mmio_hit(#[trigger] old(g).mmio()[k], at)) ==> {
            let d = old(g).mmio()[i].device_index as int;
            let asked = DeviceOp::MmioRead { offset: (at - old(g).mmio()[i].base) as u64, width, answer: r };
            &&& d < old(g).count()
            &&& final(g).log(d) == old(g).log(d).push(asked)
            &&& old(g).permits(d, Seq::empty(), asked)
            &&& j != d ==> final(g).log(j) == old(g).log(j)
        },
        (forall|k: int| 0 <= k < old(g).mmio().len() ==> !mmio_hit(#[trigger] old(g).mmio()[k], at))
            ==> r == Err::<u64, DevError>(DevError::UnmappedAddress(at)) && final(g).log(j) == old(g).log(j),
        final(g).mmio() == old(g).mmio(),
        final(g).count() == old(g).count(),
        final(g).irqs() == old(g).irqs(),
        final(g).machine() == old(g).machine(),
{
    if 0 <= i < old(g).mmio().len() && mmio_hit(old(g).mmio()[i], at) && (forall|k: int|
        0 <= k < i ==> !mmio_hit(#[trigger] old(g).mmio()[k], at)) {
        mmio_first_hit_decides(old(g).mmio(), at, i);
    }
    if forall|k: int| 0 <= k < old(g).mmio().len() ==> !mmio_hit(#[trigger] old(g).mmio()[k], at) {
        mmio_no_hit_no_target(old(g).mmio(), at);
    }
}

/// A write goes to the device of the first route that holds the address, whole and
/// with its width; an address that no route holds reaches no device.
pub proof fn dispatch_mmio_write_reaches_the_routed_device<D: VirtualDevice>(
    g: &mut VirtualDeviceGraph<D>,
    at: u64,
    width: Width,
    value: u64,
    r: Result<(), DevError>,
    i: int,
    j: int,
)
    requires
        call_ensures(VirtualDeviceGraph::<D>::dispatch_mmio_write, (g, at, width, value), r),
        0 <= j < old(g).count(),
    ensures
        0 <= i < old(g).mmio().len() && mmio_hit(old(g).mmio()[i], at) && (forall|k: int|
            0 <= k < i ==> !mmio_hit(#[trigger] old(g).mmio()[k], at)) ==> {
            let d = old(g).mmio()[i].device_index as int;
            let asked = DeviceOp::MmioWrite { offset: (at - old(g).mmio()[i].base) as u64, width, value, answer: r };
            &&& d < old(g).count()
            &&& final(g).log(d) == old(g).log(d).push(asked)
            &&& old(g).permits(d, Seq::empty(), asked)
            &&& j != d ==> final(g).log(j) == old(g).log(j)
        },
        (forall|k: int| 0 <= k < old(g).mmio().len() ==> !mmio_hit(#[trigger] old(g).mmio()[k], at))
            ==> r == Err::<(), DevError>(DevError::UnmappedAddress(at)) && final(g).log(j) == old(g).log(j),
        final(g).mmio() == old(g).mmio(),
        final(g).count() == old(g).count(),
        final(g).irqs() == old(g).irqs(),
        final(g).machine() == old(g).machine(),
{
    if 0 <= i < old(g).mmio().len() && mmio_hit(old(g).mmio()[i], at) && (forall|k: int|
        0 <= k < i ==> !mmio_hit(#[trigger] old(g).mmio()[k], at)) {
        mmio_first_hit_decides(old(g).mmio(), at, i);
    }
    if forall|k: int| 0 <= k < old(g).mmio().len() ==> !mmio_hit(#[trigger] old(g).mmio()[k], at) {
        mmio_no_hit_no_target(old(g).mmio(), at);
    }
}

/// A port read goes to the device of the first route that holds the port, with the
/// port counted from the route's start; a port that no route holds reaches none.
pub proof fn dispatch_io_read_reaches_the_routed_device<D: VirtualDevice>(
    g: &mut VirtualDeviceGraph<D>,
    at: u16,
    width: Width,
    r: Result<u32, DevError>,
    i: int,
    j: int,
)
    requires
        call_ensures(VirtualDeviceGraph::<D>::dispatch_io_read, (g, at, width), r),
        0 <= j < old(g).count(),
    ensures
        0 <= i < old(g).io().len() && io_hit(old(g).io()[i], at) && (forall|k: int|
            0 <= k < i ==> !io_hit(#[trigger] old(g).io()[k], at)) ==> {
            let d = old(g).io()[i].device_index as int;
            let asked = DeviceOp::IoRead { port: (at - old(g).io()[i].base) as u16, width, answer: r };
            &&& d < old(g).count()
            &&& final(g).log(d) == old(g).log(d).push(asked)
            &&& old(g).permits(d, Seq::empty(), asked)
            &&& j != d ==> final(g).log(j) == old(g).log(j)
        },
        (forall|k: int| 0 <= k < old(g).io().len() ==> !io_hit(#[trigger] old(g).io()[k], at))
            ==> r == Err::<u32, DevError>(DevError::UnknownPort(at)) && final(g).log(j) == old(g).log(j),
        final(g).io() == old(g).io(),
        final(g).count() == old(g).count(),
        final(g).irqs() == old(g).irqs(),
        final(g).machine() == old(g).machine(),
{
    if 0 <= i < old(g).io().len() && io_hit(old(g).io()[i], at) && (forall|k: int|
        0 <= k < i ==> !io_hit(#[trigger] old(g).io()[k], at)) {
        io_first_hit_decides(old(g).io(), at, i);
    }
    if forall|k: int| 0 <= k < old(g).io().len() ==> !io_hit(#[trigger] old(g).io()[k], at) {
        io_no_hit_no_target(old(g).io(), at);
    }
}

/// A port write goes to the device of the first route that holds the port; a port
/// that no route holds reaches none.
pub proof fn dispatch_io_write_reaches_the_routed_device<D: VirtualDevice>(
    g: &mut VirtualDeviceGraph<D>,
    at: u16,
    width: Width,
    value: u32,
    r: Result<(), DevError>,
    i: int,
    j: int,
)
    requires
        call_ensures(VirtualDeviceGraph::<D>::dispatch_io_write, (g, at, width, value), r),
        0 <= j < old(g).count(),
    ensures
        0 <= i < old(g).io().len() && io_hit(old(g).io()[i], at) && (forall|k: int|
            0 <= k < i ==> !io_hit(#[trigger] old(g).io()[k], at)) ==> {
            let d = old(g).io()[i].device_index as int;
            let asked = DeviceOp::IoWrite { port: (at - old(g).io()[i].base) as u16, width, value, answer: r };
            &&& d < old(g).count()
            &&& final(g).log(d) == old(g).log(d).push(asked)
            &&& old(g).permits(d, Seq::empty(), asked)
            &&& j != d ==> final(g).log(j) == old(g).log(j)
        },
        (forall|k: int| 0 <= k < old(g).io().len() ==> !io_hit(#[trigger] old(g).io()[k], at))
            ==> r == Err::<(), DevError>(DevError::UnknownPort(at)) && final(g).log(j) == old(g).log(j),
        final(g).io() == old(g).io(),
        final(g).count() == old(g).count(),
        final(g).irqs() == old(g).irqs(),
        final(g).machine() == old(g).machine(),
{
    if 0 <= i < old(g).io().len() && io_hit(old(g).io()[i], at) && (forall|k: int|
        0 <= k < i ==> !io_hit(#[trigger] old(g).io()[k], at)) {
        io_first_hit_decides(old(g).io(), at, i);
    }
    if forall|k: int| 0 <= k < old(g).io().len() ==> !io_hit(#[trigger] old(g).io()[k], at) {
        io_no_hit_no_target(old(g).io(), at);
    }
}

/// Devices are registered one after the other; a new one has its own routes and
/// its own line, and changes nothing for the others. What is refused changes
/// nothing at all.
pub proof fn registered_device_has_its_routes<D: VirtualDevice>(
    g: &mut VirtualDeviceGraph<D>,
    device: D,
    mmio: Option<(u64, u64)>,
    io: Option<(u16, u16)>,
    irq: Option<u8>,
    r: Result<usize, DevError>,
    later: &VirtualDeviceGraph<D>,
    line: Option<u8>,
    j: int,
)
    requires
        call_ensures(VirtualDeviceGraph::<D>::register, (g, device, mmio, io, irq), r),
        *later == *final(g),
        r matches Ok(index) ==> call_ensures(
            VirtualDeviceGraph::<D>::irq_for,
            (later, index),
            line,
        ),
        0 <= j < old(g).count(),
        old(g).count() <= usize::MAX,
    ensures
        r matches Ok(index) ==> {
            &&& index == old(g).count()
            &&& final(g).count() == old(g).count() + 1
            &&& line == irq
            &&& final(g).log(index as int) == device.log()
            &&& mmio is Some ==> {
                &&& final(g).mmio().len() == old(g).mmio().len() + 1
                &&& final(g).mmio().last().base == (mmio->0).0
                &&& final(g).mmio().last().len == (mmio->0).1
                &&& final(g).mmio().last().device_index == index
            }
            &&& mmio is None ==> final(g).mmio() == old(g).mmio()
            &&& io is Some ==> {
                &&& final(g).io().len() == old(g).io().len() + 1
                &&& final(g).io().last().base == (io->0).0
                &&& final(g).io().last().len == (io->0).1
                &&& final(g).io().last().device_index == index
            }
            &&& io is None ==> final(g).io() == old(g).io()
        },
        r is Err ==> final(g).count() == old(g).count() && final(g).mmio() == old(g).mmio()
            && final(g).io() == old(g).io() && final(g).irqs() == old(g).irqs(),
        final(g).log(j) == old(g).log(j),
        mmio matches Some((base, len)) && len == 0 ==> r is Err,
        io matches Some((base, len)) && len == 0 ==> r is Err,
{
}

/// A registration is refused where one of its places is taken.
pub proof fn taken_places_are_refused<D: VirtualDevice>(
    g: &mut VirtualDeviceGraph<D>,
    device: D,
    mmio: Option<(u64, u64)>,
    io: Option<(u16, u16)>,
    irq: Option<u8>,
    r: Result<usize, DevError>,
    i: int,
    at: u64,
    port: u16,
)
    requires
        call_ensures(VirtualDeviceGraph::<D>::register, (g, device, mmio, io, irq), r),
    ensures
        mmio is Some && 0 <= i < old(g).mmio().len() && mmio_hit(old(g).mmio()[i], at)
            && mmio_inside((mmio->0).0, (mmio->0).1, at) ==> r is Err,
        io is Some && 0 <= i < old(g).io().len() && io_hit(old(g).io()[i], port) && io_inside(
            (io->0).0,
            (io->0).1,
            port,
        ) ==> r is Err,
{
    if mmio is Some && 0 <= i < old(g).mmio().len() && mmio_hit(old(g).mmio()[i], at)
        && mmio_inside((mmio->0).0, (mmio->0).1, at) {
        let c = mmio_least_conflict(old(g).mmio(), (mmio->0).0, (mmio->0).1, i);
        assert(devices::first_mmio_conflict(old(g).mmio(), (mmio->0).0, (mmio->0).1, c));
    }
    if io is Some && 0 <= i < old(g).io().len() && io_hit(old(g).io()[i], port) && io_inside(
        (io->0).0,
        (io->0).1,
        port,
    ) {
        let c = io_least_conflict(old(g).io(), (io->0).0, (io->0).1, i);
        assert(devices::first_io_conflict(old(g).io(), (io->0).0, (io->0).1, c));
    }
}

/// Ticking and resetting reach the device of that number and no other; a number
/// that no device has is refused.
pub proof fn tick_and_reset_reach_one_device<D: VirtualDevice>(
    g: &mut VirtualDeviceGraph<D>,
    h: &mut VirtualDeviceGraph<D>,
    index: usize,
    t: Result<DeviceAction, DevError>,
    u: Result<(), DevError>,
    j: int,
)
    requires
        call_ensures(VirtualDeviceGraph::<D>::tick_device, (g, index), t),
        call_ensures(VirtualDeviceGraph::<D>::reset_device, (h, index), u),
    ensures
        t is Ok <==> index < old(g).count(),
        u is Ok <==> index < old(h).count(),
        t matches Err(e) ==> e == DevError::UnknownDevice(index),
        u matches Err(e) ==> e == DevError::UnknownDevice(index),
        t matches Ok(a) ==> final(g).log(index as int) == old(g).log(index as int).push(
            DeviceOp::Tick { action: a },
        ),
        u is Ok ==> final(h).log(index as int) == old(h).log(index as int).push(DeviceOp::Reset),
        0 <= j < old(g).count() && j != index ==> final(g).log(j) == old(g).log(j),
        0 <= j < old(h).count() && j != index ==> final(h).log(j) == old(h).log(j),
        final(g).machine() == old(g).machine() && final(h).machine() == old(h).machine(),
{
}

// ------------------------------------------------------------ test device

/// The offsets of the eight registers.
pub open spec fn register_offset(offset: u64) -> bool {
    offset < 64 && offset % 8 == 0
}

/// A read is answered exactly at the offsets of the eight registers, each of which
/// has its own, with as much of the register as the width covers; it changes
/// nothing.
pub proof fn read_gives_the_register(
    d: &mut TestDevice,
    before: &TestDevice,
    offset: u64,
    width: Width,
    r: Result<u64, DevError>,
    k: usize,
    held: Option<u64>,
)
    requires
        call_ensures(<TestDevice as VirtualDevice>::mmio_read, (d, offset, width), r),
        *before == *old(d),
        call_ensures(TestDevice::reg, (before, k), held),
    ensures
        r is Ok <==> register_offset(offset),
        r is Err ==> r == Err::<u64, DevError>(DevError::OffsetOutOfRange { offset }),
        register_offset(offset) && k * 8 == offset ==> held is Some && r->Ok_0 == cut_to_width(
            held->0,
            width,
        ),
        final(d).state() == old(d).state(),
{
    if let Some(v) = held {
        widths(v, width);
    }
}

/// A write is taken exactly at the offset of a register and of a value that fits;
/// the register then holds the value and the others what they held. A refused
/// write changes nothing.
pub proof fn write_sets_one_register(
    d: &mut TestDevice,
    before: &TestDevice,
    after: &TestDevice,
    offset: u64,
    width: Width,
    value: u64,
    r: Result<(), DevError>,
    k: usize,
    was: Option<u64>,
    is: Option<u64>,
)
    requires
        call_ensures(<TestDevice as VirtualDevice>::mmio_write, (d, offset, width, value), r),
        *before == *old(d),
        *after == *final(d),
        call_ensures(TestDevice::reg, (before, k), was),
        call_ensures(TestDevice::reg, (after, k), is),
        old(d).state().regs.len() == 8,
    ensures
        r is Ok <==> register_offset(offset) && fits_width(value, width),
        !register_offset(offset) ==> r == Err::<(), DevError>(DevError::OffsetOutOfRange { offset }),
        register_offset(offset) && !fits_width(value, width) ==> r == Err::<(), DevError>(
            DevError::ValueTooWide { value, width },
        ),
        r is Ok && k * 8 == offset ==> is == Some(value),
        r is Ok && k * 8 != offset ==> is == was,
        r is Err ==> is == was,
        final(d).state().ticks == old(d).state().ticks,
        final(d).state().irq_after == old(d).state().irq_after,
{
    widths(value, width);
}

/// A port access sees the same registers, cut to 32 bits.
pub proof fn port_read_gives_the_register(
    d: &mut TestDevice,
    before: &TestDevice,
    port: u16,
    width: Width,
    r: Result<u32, DevError>,
    k: usize,
    held: Option<u64>,
)
    requires
        call_ensures(<TestDevice as VirtualDevice>::io_read, (d, port, width), r),
        *before == *old(d),
        call_ensures(TestDevice::reg, (before, k), held),
    ensures
        r is Ok <==> register_offset(port as u64),
        r is Err ==> r == Err::<u32, DevError>(DevError::OffsetOutOfRange { offset: port as u64 }),
        register_offset(port as u64) && k * 8 == port ==> held is Some && r->Ok_0 == cut_to_width(
            held->0,
            width,
        ) % 0x1_0000_0000,
        final(d).state() == old(d).state(),
{
    if let Some(v) = held {
        port_widths(v, width);
    }
}

proof fn port_widths(v: u64, w: Width)
    ensures
        (v as u32) & devices::io_mask(w) == cut_to_width(v, w) % 0x1_0000_0000,
{
    assert((v as u32) & ((0xffu64 & 0xffff_ffffu64) as u32) == v % 0x100u64) by (bit_vector);
    assert((v as u32) & ((0xffffu64 & 0xffff_ffffu64) as u32) == v % 0x1_0000u64) by (bit_vector);
    assert((v as u32) & ((0xffff_ffffu64 & 0xffff_ffffu64) as u32) == v % 0x1_0000_0000u64)
        by (bit_vector);
    assert((v as u32) & ((0xffff_ffff_ffff_ffffu64 & 0xffff_ffffu64) as u32) == v
        % 0x1_0000_0000u64) by (bit_vector);
}

/// A port write sets one register, as a write does.
pub proof fn port_write_sets_one_register(
    d: &mut TestDevice,
    before: &TestDevice,
    after: &TestDevice,
    port: u16,
    width: Width,
    value: u32,
    r: Result<(), DevError>,
    k: usize,
    was: Option<u64>,
    is: Option<u64>,
)
    requires
        call_ensures(<TestDevice as VirtualDevice>::io_write, (d, port, width, value), r),
        *before == *old(d),
        *after == *final(d),
        call_ensures(TestDevice::reg, (before, k), was),
        call_ensures(TestDevice::reg, (after, k), is),
        old(d).state().regs.len() == 8,
    ensures
        r is Ok <==> register_offset(port as u64) && fits_width(value as u64, width),
        r is Ok && k * 8 == port ==> is == Some(value as u64),
        r is Ok && k * 8 != port ==> is == was,
        r is Err ==> is == was,
{
    assert((value & !((0xffu64 & 0xffff_ffffu64) as u32) == 0) == (value < 0x100u32))
        by (bit_vector);
    assert((value & !((0xffffu64 & 0xffff_ffffu64) as u32) == 0) == (value < 0x1_0000u32))
        by (bit_vector);
    assert(value & !((0xffff_ffffu64 & 0xffff_ffffu64) as u32) == 0) by (bit_vector);
    assert(value & !((0xffff_ffff_ffff_ffffu64 & 0xffff_ffffu64) as u32) == 0) by (bit_vector);
}

/// Ticks are counted, up to the limit of the counter, and the line is raised from
/// the given count on, and never without one.
pub proof fn ticks_are_counted(d: &mut TestDevice, a: DeviceAction)
    requires
        call_ensures(<TestDevice as VirtualDevice>::tick, (d,), a),
    ensures
        old(d).state().ticks < u32::MAX ==> final(d).state().ticks - old(d).state().ticks == 1,
        old(d).state().ticks == u32::MAX ==> final(d).state().ticks == u32::MAX,
        old(d).state().irq_after is None ==> a == DeviceAction::Idle,
        old(d).state().irq_after matches Some((after, line)) ==> {
            &&& final(d).state().ticks >= after ==> a == DeviceAction::RaiseIrq(line)
            &&& final(d).state().ticks < after ==> a == DeviceAction::Idle
        },
        final(d).state().regs == old(d).state().regs,
        final(d).state().irq_after == old(d).state().irq_after,
{
}

/// A reset leaves every register and the tick count at zero, and keeps what was
/// configured.
pub proof fn reset_zeroes_the_device(
    d: &mut TestDevice,
    u: (),
    after: &TestDevice,
    k: usize,
    is: Option<u64>,
)
    requires
        call_ensures(<TestDevice as VirtualDevice>::reset, (d,), u),
        *after == *final(d),
        call_ensures(TestDevice::reg, (after, k), is),
    ensures
        k < 8 ==> is == Some(0u64),
        final(d).state().ticks == 0,
        final(d).state().irq_after == old(d).state().irq_after,
        final(d).id() == old(d).id(),
{
}

/// A new device has eight registers at zero and no line to raise; giving it one
/// changes nothing else.
pub proof fn new_device_is_zero(
    id: DeviceId,
    d: TestDevice,
    after: u32,
    line: u8,
    e: TestDevice,
    k: usize,
    is: Option<u64>,
)
    requires
        call_ensures(TestDevice::new, (id,), d),
        call_ensures(TestDevice::with_irq_after, (d, after, line), e),
        call_ensures(TestDevice::reg, (&e, k), is),
    ensures
        is is Some <==> k < 8,
        k < 8 ==> is == Some(0u64),
        d.state().irq_after is None,
        e.state().irq_after == Some((after, line)),
        e.state().ticks == 0,
        e.id() == id,
{
}

} // verus!
