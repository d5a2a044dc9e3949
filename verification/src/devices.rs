//! Virtual device bus.
//!
//! MMIO addresses and I/O ports are routed to registered devices only where an
//! explicit route exists. Any access to an unregistered address or port fails
//! closed with a [`DevError`].
use vstd::prelude::*;

use crate::mm;
use crate::mm::VmId;
use crate::text;

pub mod laws;

verus! {

/// Stable, deterministic identifier for a registered virtual device.
#[derive(Debug, Clone, Copy, PartialEq, Eq, PartialOrd, Ord, Hash, Structural)]
pub struct DeviceId(pub u32);

impl DeviceId {
    /// The numeric id.
    pub fn get(&self) -> (r: u32)
        ensures
            r == self.0,
    {
        self.0
    }
}

/// Width of an MMIO or port-I/O access.
#[derive(Debug, Clone, Copy, PartialEq, Eq, PartialOrd, Ord, Hash, Structural)]
pub enum Width {
    /// 1 byte (8 bits).
    Byte,
    /// 2 bytes (16 bits).
    Word,
    /// 4 bytes (32 bits).
    Dword,
    /// 8 bytes (64 bits).
    Qword,
}

impl Width {
    /// Number of bytes.
    pub open spec fn size(self) -> u64 {
        match self {
            Width::Byte => 1,
            Width::Word => 2,
            Width::Dword => 4,
            Width::Qword => 8,
        }
    }

    /// All ones in the low bytes.
    pub open spec fn ones(self) -> u64 {
        match self {
            Width::Byte => 0xff,
            Width::Word => 0xffff,
            Width::Dword => 0xffff_ffff,
            Width::Qword => 0xffff_ffff_ffff_ffff,
        }
    }

    /// The name of the width.
    pub open spec fn name(self) -> Seq<char> {
        match self {
            Width::Byte => "Byte"@,
            Width::Word => "Word"@,
            Width::Dword => "Dword"@,
            Width::Qword => "Qword"@,
        }
    }

    fn shown(&self) -> (r: &'static str)
        ensures
            r@ == self.name(),
    {
        match self {
            Width::Byte => "Byte",
            Width::Word => "Word",
            Width::Dword => "Dword",
            Width::Qword => "Qword",
        }
    }

    /// Number of bytes covered by this width.
    pub fn bytes(&self) -> (r: u64)
        ensures
            r == self.size(),
    {
        match self {
            Width::Byte => 1,
            Width::Word => 2,
            Width::Dword => 4,
            Width::Qword => 8,
        }
    }

    /// Number of bits covered by this width.
    pub fn bits(&self) -> (r: u32)
        ensures
            r == 8 * self.size(),
    {
        (self.bytes() * 8) as u32
    }

    /// Mask selecting the low `bytes()` of a value (all-ones for `Qword`).
    pub fn mask(&self) -> (r: u64)
        ensures
            r == self.ones(),
    {
        match self {
            Width::Byte => 0xff,
            Width::Word => 0xffff,
            Width::Dword => 0xffff_ffff,
            Width::Qword => 0xffff_ffff_ffff_ffff,
        }
    }
}

/// The mask of a width is its number of ones: `2^(8 * bytes) - 1`.
pub proof fn mask_is_low_bits(w: Width)
    ensures
        w.ones() + 1 == vstd::arithmetic::power2::pow2(8 * w.size() as nat),
{
    vstd::arithmetic::power2::lemma2_to64();
    vstd::arithmetic::power2::lemma2_to64_rest();
}

/// Errors produced by the device bus.
#[derive(Debug, Clone, Copy, PartialEq, Eq, Structural)]
pub enum DevError {
    /// No MMIO route covers the requested guest physical address.
    UnmappedAddress(u64),
    /// No I/O-port route covers the requested port.
    UnknownPort(u16),
    /// A route referenced a device index that is not in the graph.
    UnknownDevice(usize),
    /// The device received an access width it does not support.
    UnsupportedWidth { offset: u64, width: Width },
    /// The access fell outside the device's range.
    OffsetOutOfRange { offset: u64 },
    /// The value written did not fit the access width.
    ValueTooWide { value: u64, width: Width },
}

impl DevError {
    /// The text of the error.
    pub open spec fn text(self) -> Seq<char> {
        match self {
            DevError::UnmappedAddress(addr) =>
                "unmapped MMIO address "@ + text::hex_number(addr as nat),
            DevError::UnknownPort(port) => "unknown I/O port "@ + text::hex_number(port as nat),
            DevError::UnknownDevice(index) =>
                "unknown device index "@ + text::decimal(index as nat),
            DevError::UnsupportedWidth { offset, width } =>
                "unsupported access width "@ + width.name() + " at offset "@
                    + text::hex_number(offset as nat),
            DevError::OffsetOutOfRange { offset } =>
                "offset "@ + text::hex_number(offset as nat) + " out of range for device"@,
            DevError::ValueTooWide { value, width } =>
                "value "@ + text::hex_number(value as nat) + " does not fit access width "@
                    + width.name(),
        }
    }

    /// The error as one line of text.
    pub fn message(&self) -> (r: String)
        ensures
            r@ == self.text(),
    {
        match self {
            DevError::UnmappedAddress(addr) => text::joined(
                "unmapped MMIO address ",
                text::hex_number_text(*addr).as_str(),
            ),
            DevError::UnknownPort(port) => text::joined(
                "unknown I/O port ",
                text::hex_number_text(*port as u64).as_str(),
            ),
            DevError::UnknownDevice(index) => text::joined(
                "unknown device index ",
                text::decimal_text(*index as u64).as_str(),
            ),
            DevError::UnsupportedWidth { offset, width } => {
                let mut out = "unsupported access width ".to_string();
                out.append(width.shown());
                out.append(" at offset ");
                out.append(text::hex_number_text(*offset).as_str());
                out
            },
            DevError::OffsetOutOfRange { offset } => {
                let mut out = "offset ".to_string();
                out.append(text::hex_number_text(*offset).as_str());
                out.append(" out of range for device");
                out
            },
            DevError::ValueTooWide { value, width } => {
                let mut out = "value ".to_string();
                out.append(text::hex_number_text(*value).as_str());
                out.append(" does not fit access width ");
                out.append(width.shown());
                out
            },
        }
    }
}

/// Side effect requested by a device after a tick.
#[derive(Debug, Clone, Copy, PartialEq, Eq, Structural)]
pub enum DeviceAction {
    /// Nothing to do.
    Idle,
    /// Raise the given interrupt request line.
    RaiseIrq(u8),
    /// The device requests a reset.
    NeedsReset,
}

// ------------------------------------------------------------------ trait

/// One use of a device: what it was asked and what it answered.
pub enum DeviceOp {
    MmioRead { offset: u64, width: Width, answer: Result<u64, DevError> },
    MmioWrite { offset: u64, width: Width, value: u64, answer: Result<(), DevError> },
    IoRead { port: u16, width: Width, answer: Result<u32, DevError> },
    IoWrite { port: u16, width: Width, value: u32, answer: Result<(), DevError> },
    Tick { action: DeviceAction },
    Reset,
}

/// A virtual device attached to the bus. Offsets passed to its methods are
/// device-local: the [`VirtualDeviceGraph`] has translated them.
pub trait VirtualDevice {
    /// The device's identifier.
    spec fn id(&self) -> DeviceId;

    /// Every use of this device so far.
    spec fn log(&self) -> Seq<DeviceOp>;

    /// Whether `op` may be the device's next use once it has been used as
    /// `past` from now on. A device that cannot tell permits every use.
    spec fn permits(&self, past: Seq<DeviceOp>, op: DeviceOp) -> bool;

    /// Stable identifier for this device.
    fn device_id(&self) -> (r: DeviceId)
        ensures
            r == self.id(),
    ;

    /// Read `width` bytes at device-local MMIO `offset`.
    fn mmio_read(&mut self, offset: u64, width: Width) -> (r: Result<u64, DevError>)
        ensures
            final(self).log() == old(self).log().push(
                DeviceOp::MmioRead { offset, width, answer: r },
            ),
            old(self).permits(Seq::empty(), DeviceOp::MmioRead { offset, width, answer: r }),
            forall|past: Seq<DeviceOp>, op: DeviceOp| #[trigger]
                final(self).permits(past, op) ==> old(self).permits(
                    seq![DeviceOp::MmioRead { offset, width, answer: r }] + past,
                    op,
                ),
    ;

    /// Write `value` of `width` bytes at device-local MMIO `offset`.
    fn mmio_write(&mut self, offset: u64, width: Width, value: u64) -> (r: Result<(), DevError>)
        ensures
            final(self).log() == old(self).log().push(
                DeviceOp::MmioWrite { offset, width, value, answer: r },
            ),
            old(self).permits(Seq::empty(), DeviceOp::MmioWrite { offset, width, value, answer: r }),
            forall|past: Seq<DeviceOp>, op: DeviceOp| #[trigger]
                final(self).permits(past, op) ==> old(self).permits(
                    seq![DeviceOp::MmioWrite { offset, width, value, answer: r }] + past,
                    op,
                ),
    ;

    /// Read `width` bytes from device-local I/O `port` offset.
    fn io_read(&mut self, port: u16, width: Width) -> (r: Result<u32, DevError>)
        ensures
            final(self).log() == old(self).log().push(
                DeviceOp::IoRead { port, width, answer: r },
            ),
            old(self).permits(Seq::empty(), DeviceOp::IoRead { port, width, answer: r }),
            forall|past: Seq<DeviceOp>, op: DeviceOp| #[trigger]
                final(self).permits(past, op) ==> old(self).permits(
                    seq![DeviceOp::IoRead { port, width, answer: r }] + past,
                    op,
                ),
    ;

    /// Write `value` of `width` bytes to device-local I/O `port` offset.
    fn io_write(&mut self, port: u16, width: Width, value: u32) -> (r: Result<(), DevError>)
        ensures
            final(self).log() == old(self).log().push(
                DeviceOp::IoWrite { port, width, value, answer: r },
            ),
            old(self).permits(Seq::empty(), DeviceOp::IoWrite { port, width, value, answer: r }),
            forall|past: Seq<DeviceOp>, op: DeviceOp| #[trigger]
                final(self).permits(past, op) ==> old(self).permits(
                    seq![DeviceOp::IoWrite { port, width, value, answer: r }] + past,
                    op,
                ),
    ;

    /// Advance device time by one step, returning any requested side effect.
    fn tick(&mut self) -> (r: DeviceAction)
        ensures
            final(self).log() == old(self).log().push(DeviceOp::Tick { action: r }),
            old(self).permits(Seq::empty(), DeviceOp::Tick { action: r }),
            forall|past: Seq<DeviceOp>, op: DeviceOp| #[trigger]
                final(self).permits(past, op) ==> old(self).permits(
                    seq![DeviceOp::Tick { action: r }] + past,
                    op,
                ),
    ;

    /// Reset the device to its power-on state.
    fn reset(&mut self)
        ensures
            final(self).log() == old(self).log().push(DeviceOp::Reset),
            old(self).permits(Seq::empty(), DeviceOp::Reset),
            forall|past: Seq<DeviceOp>, op: DeviceOp| #[trigger]
                final(self).permits(past, op) ==> old(self).permits(
                    seq![DeviceOp::Reset] + past,
                    op,
                ),
    ;
}

/// A boxed device is used as the device in the box.
impl<T: VirtualDevice + ?Sized> VirtualDevice for Box<T> {
    open spec fn id(&self) -> DeviceId {
        (**self).id()
    }

    open spec fn log(&self) -> Seq<DeviceOp> {
        (**self).log()
    }

    open spec fn permits(&self, past: Seq<DeviceOp>, op: DeviceOp) -> bool {
        (**self).permits(past, op)
    }

    fn device_id(&self) -> (r: DeviceId) {
        (**self).device_id()
    }

    fn mmio_read(&mut self, offset: u64, width: Width) -> (r: Result<u64, DevError>) {
        (**self).mmio_read(offset, width)
    }

    fn mmio_write(&mut self, offset: u64, width: Width, value: u64) -> (r: Result<(), DevError>) {
        (**self).mmio_write(offset, width, value)
    }

    fn io_read(&mut self, port: u16, width: Width) -> (r: Result<u32, DevError>) {
        (**self).io_read(port, width)
    }

    fn io_write(&mut self, port: u16, width: Width, value: u32) -> (r: Result<(), DevError>) {
        (**self).io_write(port, width, value)
    }

    fn tick(&mut self) -> (r: DeviceAction) {
        (**self).tick()
    }

    fn reset(&mut self) {
        (**self).reset()
    }
}

// ------------------------------------------------------------ MMIO routes

/// A single `[base, base + len)` route to a device.
#[derive(Debug, Clone, Copy, PartialEq, Eq, Structural)]
pub struct MmioRoute {
    pub base: u64,
    pub len: u64,
    pub device_index: usize,
}

impl MmioRoute {
    /// The route covers `addr`.
    pub open spec fn covers(self, addr: u64) -> bool {
        mm::covers(self.base, self.len, addr)
    }

    /// The route overlaps `[base, base + len)`.
    pub open spec fn meets(self, base: u64, len: u64) -> bool {
        self.base < mm::end_of(base, len) && base < mm::end_of(self.base, self.len)
    }

    fn contains(&self, addr: u64) -> (r: bool)
        ensures
            r == self.covers(addr),
    {
        addr >= self.base && addr < self.base.saturating_add(self.len)
    }

    fn overlaps(&self, base: u64, len: u64) -> (r: bool)
        ensures
            r == self.meets(base, len),
    {
        self.base < base.saturating_add(len) && base < self.base.saturating_add(self.len)
    }
}

/// Every route has a length.
pub open spec fn mmio_covering(routes: Seq<MmioRoute>) -> bool {
    forall|i: int| 0 <= i < routes.len() ==> (#[trigger] routes[i]).len > 0
}

/// No two routes overlap.
pub open spec fn mmio_disjoint(routes: Seq<MmioRoute>) -> bool {
    forall|i: int, j: int|
        0 <= i < j < routes.len() ==> !(#[trigger] routes[i]).meets(
            (#[trigger] routes[j]).base,
            routes[j].len,
        )
}

/// Route `i` is the first that overlaps `[base, base + len)`.
pub open spec fn first_mmio_conflict(
    routes: Seq<MmioRoute>,
    base: u64,
    len: u64,
    i: int,
) -> bool {
    &&& 0 <= i < routes.len()
    &&& routes[i].meets(base, len)
    &&& forall|j: int| 0 <= j < i ==> !(#[trigger] routes[j]).meets(base, len)
}

/// Why a route cannot be installed.
pub open spec fn mmio_conflict(routes: Seq<MmioRoute>, base: u64, len: u64) -> Option<DevError> {
    if len == 0 {
        Some(DevError::OffsetOutOfRange { offset: base })
    } else if exists|i: int| first_mmio_conflict(routes, base, len, i) {
        let i = choose|i: int| first_mmio_conflict(routes, base, len, i);
        Some(DevError::UnmappedAddress(routes[i].base))
    } else {
        None
    }
}

/// Table mapping MMIO ranges to device indices. An unrouted address translates
/// to nothing.
#[derive(Debug, PartialEq, Eq)]
pub struct MmioRouteTable {
    routes: Vec<MmioRoute>,
}

impl View for MmioRouteTable {
    type V = Seq<MmioRoute>;

    closed spec fn view(&self) -> Seq<MmioRoute> {
        self.routes@
    }
}

impl Clone for MmioRouteTable {
    fn clone(&self) -> (r: Self)
        ensures
            r@ == self@,
    {
        proof {
            use_type_invariant(&*self);
        }
        let routes = self.routes.clone();
        assert(routes@ =~= self.routes@);
        MmioRouteTable { routes }
    }
}

impl Default for MmioRouteTable {
    fn default() -> (r: Self)
        ensures
            r@ == Seq::<MmioRoute>::empty(),
    {
        Self::new()
    }
}

impl MmioRouteTable {
    /// No two routes overlap, and none is empty.
    #[verifier::type_invariant]
    spec fn sound(&self) -> bool {
        &&& mmio_disjoint(self.routes@)
        &&& mmio_covering(self.routes@)
    }

    /// No routes.
    pub fn new() -> (r: Self)
        ensures
            r@ == Seq::<MmioRoute>::empty(),
    {
        MmioRouteTable { routes: Vec::new() }
    }

    /// Install a route. Rejects zero-length ranges and ranges overlapping an
    /// existing route, and stays as it was.
    pub fn insert(&mut self, base: u64, len: u64, device_index: usize) -> (r: Result<(), DevError>)
        ensures
            match mmio_conflict(old(self)@, base, len) {
                Some(e) => r == Err::<(), DevError>(e) && final(self)@ == old(self)@,
                None => r is Ok && final(self)@ == old(self)@.push(
                    MmioRoute { base, len, device_index },
                ),
            },
    {
        if len == 0 {
            return Err(DevError::OffsetOutOfRange { offset: base });
        }
        let mut i: usize = 0;
        while i < self.routes.len()
            invariant
                i <= self.routes@.len(),
                *self == *old(self),
                len > 0,
                forall|j: int| 0 <= j < i ==> !(#[trigger] self.routes@[j]).meets(base, len),
            decreases self.routes@.len() - i,
        {
            let existing = self.routes[i];
            if existing.overlaps(base, len) {
                proof {
                    assert(first_mmio_conflict(self@, base, len, i as int));
                    let c = choose|k: int| first_mmio_conflict(self@, base, len, k);
                    assert(c == i);
                }
                return Err(DevError::UnmappedAddress(existing.base));
            }
            i = i + 1;
        }
        proof {
            use_type_invariant(&*self);
        }
        let mut routes: Vec<MmioRoute> = Vec::new();
        std::mem::swap(&mut routes, &mut self.routes);
        routes.push(MmioRoute { base, len, device_index });
        self.routes = routes;
        Ok(())
    }

    /// Take back the route that was installed last.
    fn remove_last(&mut self)
        requires
            old(self)@.len() > 0,
        ensures
            final(self)@ == old(self)@.drop_last(),
    {
        proof {
            use_type_invariant(&*self);
        }
        let mut routes: Vec<MmioRoute> = Vec::new();
        std::mem::swap(&mut routes, &mut self.routes);
        routes.pop();
        self.routes = routes;
    }

    /// Translate a global MMIO `addr` to `(device_index, device_local_offset)`,
    /// or `None` if no route covers it.
    pub fn translate(&self, addr: u64) -> (r: Option<(usize, u64)>)
        ensures
            r == mmio_target(self@, addr),
    {
        let mut i: usize = 0;
        while i < self.routes.len()
            invariant
                i <= self.routes@.len(),
                forall|j: int| 0 <= j < i ==> !(#[trigger] self.routes@[j]).covers(addr),
            decreases self.routes@.len() - i,
        {
            let route = self.routes[i];
            if route.contains(addr) {
                proof {
                    assert(first_mmio_route(self@, addr, i as int));
                    let c = choose|k: int| first_mmio_route(self@, addr, k);
                    assert(c == i);
                }
                return Some((route.device_index, addr - route.base));
            }
            i = i + 1;
        }
        None
    }

    /// All installed routes: no two overlap, and none is empty.
    pub fn routes(&self) -> (r: &[MmioRoute])
        ensures
            r@ == self@,
            mmio_disjoint(r@),
            mmio_covering(r@),
    {
        proof {
            use_type_invariant(&*self);
        }
        self.routes.as_slice()
    }
}

/// Route `i` is the first that covers `addr`.
pub open spec fn first_mmio_route(routes: Seq<MmioRoute>, addr: u64, i: int) -> bool {
    &&& 0 <= i < routes.len()
    &&& routes[i].covers(addr)
    &&& forall|j: int| 0 <= j < i ==> !(#[trigger] routes[j]).covers(addr)
}

/// The device and local offset that `addr` is routed to.
pub open spec fn mmio_target(routes: Seq<MmioRoute>, addr: u64) -> Option<(usize, u64)> {
    if exists|i: int| first_mmio_route(routes, addr, i) {
        let i = choose|i: int| first_mmio_route(routes, addr, i);
        Some((routes[i].device_index, (addr - routes[i].base) as u64))
    } else {
        None
    }
}

// ------------------------------------------------------------- I/O routes

/// A single `[base, base + len)` I/O-port route to a device.
#[derive(Debug, Clone, Copy, PartialEq, Eq, Structural)]
pub struct IoPortRoute {
    pub base: u16,
    pub len: u16,
    pub device_index: usize,
}

impl IoPortRoute {
    /// The route covers `port`.
    pub open spec fn covers(self, port: u16) -> bool {
        self.base <= port < self.base + self.len
    }

    /// The route overlaps `[base, base + len)`.
    pub open spec fn meets(self, base: u16, len: u16) -> bool {
        self.base < base + len && base < self.base + self.len
    }

    fn end(&self) -> (r: u32)
        ensures
            r == self.base + self.len,
    {
        self.base as u32 + self.len as u32
    }

    fn contains(&self, port: u16) -> (r: bool)
        ensures
            r == self.covers(port),
    {
        let p: u32 = port as u32;
        p >= self.base as u32 && p < self.end()
    }

    fn overlaps(&self, base: u16, len: u16) -> (r: bool)
        ensures
            r == self.meets(base, len),
    {
        let other_end: u32 = base as u32 + len as u32;
        (self.base as u32) < other_end && (base as u32) < self.end()
    }
}

/// Every route has a length.
pub open spec fn io_covering(routes: Seq<IoPortRoute>) -> bool {
    forall|i: int| 0 <= i < routes.len() ==> (#[trigger] routes[i]).len > 0
}

/// No two routes overlap.
pub open spec fn io_disjoint(routes: Seq<IoPortRoute>) -> bool {
    forall|i: int, j: int|
        0 <= i < j < routes.len() ==> !(#[trigger] routes[i]).meets(
            (#[trigger] routes[j]).base,
            routes[j].len,
        )
}

/// Route `i` is the first that overlaps `[base, base + len)`.
pub open spec fn first_io_conflict(
    routes: Seq<IoPortRoute>,
    base: u16,
    len: u16,
    i: int,
) -> bool {
    &&& 0 <= i < routes.len()
    &&& routes[i].meets(base, len)
    &&& forall|j: int| 0 <= j < i ==> !(#[trigger] routes[j]).meets(base, len)
}

/// Why a route cannot be installed.
pub open spec fn io_conflict(routes: Seq<IoPortRoute>, base: u16, len: u16) -> Option<DevError> {
    if len == 0 {
        Some(DevError::UnknownPort(base))
    } else if exists|i: int| first_io_conflict(routes, base, len, i) {
        let i = choose|i: int| first_io_conflict(routes, base, len, i);
        Some(DevError::UnknownPort(routes[i].base))
    } else {
        None
    }
}

/// Route `i` is the first that covers `port`.
pub open spec fn first_io_route(routes: Seq<IoPortRoute>, port: u16, i: int) -> bool {
    &&& 0 <= i < routes.len()
    &&& routes[i].covers(port)
    &&& forall|j: int| 0 <= j < i ==> !(#[trigger] routes[j]).covers(port)
}

/// The device and local port that `port` is routed to.
pub open spec fn io_target(routes: Seq<IoPortRoute>, port: u16) -> Option<(usize, u16)> {
    if exists|i: int| first_io_route(routes, port, i) {
        let i = choose|i: int| first_io_route(routes, port, i);
        Some((routes[i].device_index, (port - routes[i].base) as u16))
    } else {
        None
    }
}

/// Table mapping I/O-port ranges to device indices.
#[derive(Debug, PartialEq, Eq)]
pub struct IoPortRouteTable {
    routes: Vec<IoPortRoute>,
}

impl View for IoPortRouteTable {
    type V = Seq<IoPortRoute>;

    closed spec fn view(&self) -> Seq<IoPortRoute> {
        self.routes@
    }
}

impl Clone for IoPortRouteTable {
    fn clone(&self) -> (r: Self)
        ensures
            r@ == self@,
    {
        proof {
            use_type_invariant(&*self);
        }
        let routes = self.routes.clone();
        assert(routes@ =~= self.routes@);
        IoPortRouteTable { routes }
    }
}

impl Default for IoPortRouteTable {
    fn default() -> (r: Self)
        ensures
            r@ == Seq::<IoPortRoute>::empty(),
    {
        Self::new()
    }
}

impl IoPortRouteTable {
    /// No two routes overlap, and none is empty.
    #[verifier::type_invariant]
    spec fn sound(&self) -> bool {
        &&& io_disjoint(self.routes@)
        &&& io_covering(self.routes@)
    }

    /// No routes.
    pub fn new() -> (r: Self)
        ensures
            r@ == Seq::<IoPortRoute>::empty(),
    {
        IoPortRouteTable { routes: Vec::new() }
    }

    /// Install a port route. Rejects zero-length and overlapping ranges, and
    /// stays as it was.
    pub fn insert(&mut self, base: u16, len: u16, device_index: usize) -> (r: Result<(), DevError>)
        ensures
            match io_conflict(old(self)@, base, len) {
                Some(e) => r == Err::<(), DevError>(e) && final(self)@ == old(self)@,
                None => r is Ok && final(self)@ == old(self)@.push(
                    IoPortRoute { base, len, device_index },
                ),
            },
    {
        if len == 0 {
            return Err(DevError::UnknownPort(base));
        }
        let mut i: usize = 0;
        while i < self.routes.len()
            invariant
                i <= self.routes@.len(),
                *self == *old(self),
                len > 0,
                forall|j: int| 0 <= j < i ==> !(#[trigger] self.routes@[j]).meets(base, len),
            decreases self.routes@.len() - i,
        {
            let existing = self.routes[i];
            if existing.overlaps(base, len) {
                proof {
                    assert(first_io_conflict(self@, base, len, i as int));
                    let c = choose|k: int| first_io_conflict(self@, base, len, k);
                    assert(c == i);
                }
                return Err(DevError::UnknownPort(existing.base));
            }
            i = i + 1;
        }
        proof {
            use_type_invariant(&*self);
        }
        let mut routes: Vec<IoPortRoute> = Vec::new();
        std::mem::swap(&mut routes, &mut self.routes);
        routes.push(IoPortRoute { base, len, device_index });
        self.routes = routes;
        Ok(())
    }

    /// Translate a global `port` to `(device_index, device_local_port)`, or
    /// `None` if no route covers it.
    pub fn translate(&self, port: u16) -> (r: Option<(usize, u16)>)
        ensures
            r == io_target(self@, port),
    {
        let mut i: usize = 0;
        while i < self.routes.len()
            invariant
                i <= self.routes@.len(),
                forall|j: int| 0 <= j < i ==> !(#[trigger] self.routes@[j]).covers(port),
            decreases self.routes@.len() - i,
        {
            let route = self.routes[i];
            if route.contains(port) {
                proof {
                    assert(first_io_route(self@, port, i as int));
                    let c = choose|k: int| first_io_route(self@, port, k);
                    assert(c == i);
                }
                return Some((route.device_index, port - route.base));
            }
            i = i + 1;
        }
        None
    }

    /// All installed routes: no two overlap, and none is empty.
    pub fn routes(&self) -> (r: &[IoPortRoute])
        ensures
            r@ == self@,
            io_disjoint(r@),
            io_covering(r@),
    {
        proof {
            use_type_invariant(&*self);
        }
        self.routes.as_slice()
    }
}

// ------------------------------------------------------------- IRQ routes

/// A single route from a device to an interrupt line.
#[derive(Debug, Clone, Copy, PartialEq, Eq, Structural)]
pub struct IrqRoute {
    pub device_index: usize,
    pub irq: u8,
}

/// Table mapping device indices to interrupt lines, one per device.
#[derive(Debug, Clone, PartialEq, Eq)]
pub struct IrqRouteTable {
    routes: Vec<IrqRoute>,
}

impl View for IrqRouteTable {
    type V = Seq<IrqRoute>;

    closed spec fn view(&self) -> Seq<IrqRoute> {
        self.routes@
    }
}

/// The line of a device: that of the first route that names it.
pub open spec fn irq_of(routes: Seq<IrqRoute>, device_index: usize) -> Option<u8>
    decreases routes.len(),
{
    if routes.len() == 0 {
        None
    } else if routes[0].device_index == device_index {
        Some(routes[0].irq)
    } else {
        irq_of(routes.drop_first(), device_index)
    }
}

/// The routes with `device_index` bound to `irq`: its first route is changed,
/// or one is added at the end.
pub open spec fn irq_bound(routes: Seq<IrqRoute>, device_index: usize, irq: u8) -> Seq<IrqRoute>
    decreases routes.len(),
{
    if routes.len() == 0 {
        seq![IrqRoute { device_index, irq }]
    } else if routes[0].device_index == device_index {
        seq![IrqRoute { device_index, irq }] + routes.drop_first()
    } else {
        seq![routes[0]] + irq_bound(routes.drop_first(), device_index, irq)
    }
}

impl Default for IrqRouteTable {
    fn default() -> (r: Self)
        ensures
            r@.len() == 0,
    {
        Self::new()
    }
}

impl IrqRouteTable {
    /// No routes.
    pub fn new() -> (r: Self)
        ensures
            r@.len() == 0,
    {
        IrqRouteTable { routes: Vec::new() }
    }

    /// Bind `device_index` to `irq`. Replaces any existing binding for that
    /// device.
    pub fn insert(&mut self, device_index: usize, irq: u8)
        ensures
            final(self)@ == irq_bound(old(self)@, device_index, irq),
    {
        let ghost all = self@;
        let mut i: usize = 0;
        assert(all.take(0) + irq_bound(all.skip(0), device_index, irq) =~= irq_bound(
            all,
            device_index,
            irq,
        )) by {
            assert(all.skip(0) =~= all);
        }
        while i < self.routes.len()
            invariant
                i <= all.len(),
                self@ == all,
                all == old(self)@,
                irq_bound(all, device_index, irq) == all.take(i as int) + irq_bound(
                    all.skip(i as int),
                    device_index,
                    irq,
                ),
            decreases all.len() - i,
        {
            let ghost rest = all.skip(i as int);
            assert(rest.drop_first() =~= all.skip(i as int + 1));
            if self.routes[i].device_index == device_index {
                self.routes[i] = IrqRoute { device_index, irq };
                assert(self@ =~= irq_bound(all, device_index, irq));
                return;
            }
            assert(all.take(i as int) + irq_bound(rest, device_index, irq) =~= all.take(
                i as int + 1,
            ) + irq_bound(all.skip(i as int + 1), device_index, irq));
            i = i + 1;
        }
        self.routes.push(IrqRoute { device_index, irq });
        assert(self@ =~= irq_bound(all, device_index, irq));
    }

    /// Look up the irq line for `device_index`, or `None` if unbound.
    pub fn irq_for(&self, device_index: usize) -> (r: Option<u8>)
        ensures
            r == irq_of(self@, device_index),
    {
        let ghost all = self@;
        let mut i: usize = 0;
        assert(all.skip(0) =~= all);
        while i < self.routes.len()
            invariant
                i <= all.len(),
                all == self@,
                irq_of(all, device_index) == irq_of(all.skip(i as int), device_index),
            decreases all.len() - i,
        {
            assert(all.skip(i as int).drop_first() =~= all.skip(i as int + 1));
            if self.routes[i].device_index == device_index {
                return Some(self.routes[i].irq);
            }
            i = i + 1;
        }
        None
    }

    /// All installed routes.
    pub fn routes(&self) -> (r: &[IrqRoute])
        ensures
            r@ == self@,
    {
        self.routes.as_slice()
    }
}

/// A binding is what a later look-up finds; other devices keep theirs.
pub proof fn irq_lookup_after_bind(routes: Seq<IrqRoute>, device_index: usize, irq: u8, d: usize)
    ensures
        irq_of(irq_bound(routes, device_index, irq), d) == (if d == device_index {
            Some(irq)
        } else {
            irq_of(routes, d)
        }),
    decreases routes.len(),
{
    let b = irq_bound(routes, device_index, irq);
    if routes.len() == 0 {
        assert(b.drop_first() =~= routes);
    } else if routes[0].device_index == device_index {
        assert(b.drop_first() =~= routes.drop_first());
    } else {
        irq_lookup_after_bind(routes.drop_first(), device_index, irq, d);
        assert(b.drop_first() =~= irq_bound(routes.drop_first(), device_index, irq));
    }
}

/// Every route of the three tables leads to one of the first `count` devices.
pub open spec fn all_registered(
    mmio: Seq<MmioRoute>,
    io: Seq<IoPortRoute>,
    irqs: Seq<IrqRoute>,
    count: nat,
) -> bool {
    &&& forall|i: int| 0 <= i < mmio.len() ==> (#[trigger] mmio[i]).device_index < count
    &&& forall|i: int| 0 <= i < io.len() ==> (#[trigger] io[i]).device_index < count
    &&& forall|i: int| 0 <= i < irqs.len() ==> (#[trigger] irqs[i]).device_index < count
}

/// A device that no route names has no line.
proof fn unnamed_has_no_line(routes: Seq<IrqRoute>, device_index: usize)
    requires
        forall|i: int| 0 <= i < routes.len() ==> (#[trigger] routes[i]).device_index != device_index,
    ensures
        irq_of(routes, device_index) is None,
    decreases routes.len(),
{
    if routes.len() > 0 {
        assert forall|i: int| 0 <= i < routes.drop_first().len() implies (
        #[trigger] routes.drop_first()[i]).device_index != device_index by {
            assert(routes.drop_first()[i] == routes[i + 1]);
        }
        unnamed_has_no_line(routes.drop_first(), device_index);
    }
}

/// Binding the next device to a line names no device after it.
proof fn bound_names_registered(routes: Seq<IrqRoute>, next: usize, irq: u8)
    requires
        forall|i: int| 0 <= i < routes.len() ==> (#[trigger] routes[i]).device_index < next,
    ensures
        forall|i: int|
            0 <= i < irq_bound(routes, next, irq).len() ==> (#[trigger] irq_bound(
                routes,
                next,
                irq,
            )[i]).device_index <= next,
    decreases routes.len(),
{
    if routes.len() > 0 {
        let rest = routes.drop_first();
        assert forall|i: int| 0 <= i < rest.len() implies (#[trigger] rest[i]).device_index < next by {
            assert(rest[i] == routes[i + 1]);
        }
        bound_names_registered(rest, next, irq);
        assert(routes[0].device_index < next);
        let bound = irq_bound(routes, next, irq);
        assert forall|i: int| 0 <= i < bound.len() implies (#[trigger] bound[i]).device_index <= next by {
            if i > 0 {
                assert(bound[i] == irq_bound(rest, next, irq)[i - 1]);
            }
        }
    }
}

// ------------------------------------------------------------------ graph

/// The virtual device bus for a single VM: the registered devices and the
/// MMIO, I/O-port and IRQ route tables. With `D = Box<dyn VirtualDevice>` it
/// takes devices of any type.
pub struct VirtualDeviceGraph<D: VirtualDevice> {
    vm_id: VmId,
    devices: Vec<D>,
    mmio_routes: MmioRouteTable,
    io_routes: IoPortRouteTable,
    irq_routes: IrqRouteTable,
}

impl<D: VirtualDevice> VirtualDeviceGraph<D> {
    /// The machine that the bus belongs to.
    pub closed spec fn machine(&self) -> VmId {
        self.vm_id
    }

    /// The number of registered devices.
    pub closed spec fn count(&self) -> nat {
        self.devices@.len()
    }

    /// Every use of device `i` so far.
    pub closed spec fn log(&self, i: int) -> Seq<DeviceOp> {
        self.devices@[i].log()
    }

    /// Whether `op` may be the next use of device `i` once it has been used as
    /// `past` from now on.
    pub closed spec fn permits(&self, i: int, past: Seq<DeviceOp>, op: DeviceOp) -> bool {
        self.devices@[i].permits(past, op)
    }

    /// The MMIO routes.
    pub closed spec fn mmio(&self) -> Seq<MmioRoute> {
        self.mmio_routes@
    }

    /// The I/O-port routes.
    pub closed spec fn io(&self) -> Seq<IoPortRoute> {
        self.io_routes@
    }

    /// The IRQ routes.
    pub closed spec fn irqs(&self) -> Seq<IrqRoute> {
        self.irq_routes@
    }

    /// Every route leads to a registered device.
    #[verifier::type_invariant]
    pub open spec fn wf(&self) -> bool {
        all_registered(self.mmio(), self.io(), self.irqs(), self.count())
    }

    /// `after` has the same routes and as many devices as `before`, and no
    /// device but `index` was used.
    pub open spec fn same_but(before: Self, after: Self, index: int) -> bool {
        &&& after.machine() == before.machine()
        &&& after.count() == before.count()
        &&& after.mmio() == before.mmio()
        &&& after.io() == before.io()
        &&& after.irqs() == before.irqs()
        &&& forall|j: int|
            0 <= j < before.count() && j != index ==> #[trigger] after.log(j) == before.log(j)
        &&& forall|j: int, past: Seq<DeviceOp>, op: DeviceOp|
            0 <= j < before.count() && j != index ==> #[trigger] after.permits(j, past, op)
                == before.permits(j, past, op)
    }

    /// `after` is `before` with device `index` used once, as `op`: the device
    /// permitted that use, and what it permits now it permitted to follow.
    pub open spec fn used(before: Self, after: Self, index: int, op: DeviceOp) -> bool {
        &&& 0 <= index < before.count()
        &&& Self::same_but(before, after, index)
        &&& after.log(index) == before.log(index).push(op)
        &&& before.permits(index, Seq::empty(), op)
        &&& forall|past: Seq<DeviceOp>, next: DeviceOp| #[trigger]
            after.permits(index, past, next) ==> before.permits(index, seq![op] + past, next)
    }

    /// Create an empty device graph for `vm_id`.
    pub fn new(vm_id: VmId) -> (r: Self)
        ensures
            r.machine() == vm_id,
            r.count() == 0,
            r.mmio() == Seq::<MmioRoute>::empty(),
            r.io() == Seq::<IoPortRoute>::empty(),
            r.irqs() == Seq::<IrqRoute>::empty(),
            r.wf(),
    {
        let r = VirtualDeviceGraph {
            vm_id,
            devices: Vec::new(),
            mmio_routes: MmioRouteTable::new(),
            io_routes: IoPortRouteTable::new(),
            irq_routes: IrqRouteTable::new(),
        };
        assert(r.irqs() =~= Seq::empty());
        r
    }

    /// The whole graph, an empty one left in its place.
    fn take(&mut self) -> (r: Self)
        ensures
            r == *old(self),
            r.wf(),
    {
        proof {
            use_type_invariant(&*self);
        }
        let mut graph = VirtualDeviceGraph::new(VmId(String::new()));
        std::mem::swap(&mut graph, self);
        graph
    }

    /// The VM this bus belongs to.
    pub fn vm_id(&self) -> (r: &VmId)
        ensures
            *r == self.machine(),
    {
        &self.vm_id
    }

    /// Number of registered devices.
    pub fn device_count(&self) -> (r: usize)
        ensures
            r == self.count(),
    {
        self.devices.len()
    }

    /// Borrow the MMIO route table.
    pub fn mmio_routes(&self) -> (r: &MmioRouteTable)
        ensures
            r@ == self.mmio(),
            mmio_disjoint(r@),
            mmio_covering(r@),
    {
        proof {
            use_type_invariant(&self.mmio_routes);
        }
        &self.mmio_routes
    }

    /// Borrow the I/O-port route table.
    pub fn io_routes(&self) -> (r: &IoPortRouteTable)
        ensures
            r@ == self.io(),
            io_disjoint(r@),
            io_covering(r@),
    {
        proof {
            use_type_invariant(&self.io_routes);
        }
        &self.io_routes
    }

    /// Borrow the IRQ route table.
    pub fn irq_routes(&self) -> (r: &IrqRouteTable)
        ensures
            r@ == self.irqs(),
    {
        &self.irq_routes
    }

    /// Why a registration with these ranges fails.
    pub open spec fn conflict(
        &self,
        mmio_range: Option<(u64, u64)>,
        io_ports: Option<(u16, u16)>,
    ) -> Option<DevError> {
        let first = match mmio_range {
            Some((base, len)) => mmio_conflict(self.mmio(), base, len),
            None => None,
        };
        match (first, io_ports) {
            (Some(e), _) => Some(e),
            (None, Some((base, len))) => io_conflict(self.io(), base, len),
            (None, None) => None,
        }
    }

    /// Register `device`, installing optional MMIO range, I/O-port range and
    /// IRQ binding. Returns the assigned device index. A route conflict leaves
    /// the graph as it was.
    pub fn register(
        &mut self,
        device: D,
        mmio_range: Option<(u64, u64)>,
        io_ports: Option<(u16, u16)>,
        irq: Option<u8>,
    ) -> (r: Result<usize, DevError>)
        ensures
            final(self).wf(),
            final(self).machine() == old(self).machine(),
            forall|j: int|
                0 <= j < old(self).count() ==> #[trigger] final(self).log(j) == old(self).log(j),
            forall|j: int, past: Seq<DeviceOp>, op: DeviceOp|
                0 <= j < old(self).count() ==> #[trigger] final(self).permits(j, past, op) == old(
                    self,
                ).permits(j, past, op),
            match old(self).conflict(mmio_range, io_ports) {
                Some(e) => {
                    &&& r == Err::<usize, DevError>(e)
                    &&& Self::same_but(*old(self), *final(self), -1)
                },
                None => {
                    let index = old(self).count() as usize;
                    &&& r == Ok::<usize, DevError>(index)
                    &&& final(self).count() == old(self).count() + 1
                    &&& final(self).log(index as int) == device.log()
                    &&& forall|past: Seq<DeviceOp>, op: DeviceOp| #[trigger]
                        final(self).permits(index as int, past, op) == device.permits(past, op)
                    &&& final(self).mmio() == (match mmio_range {
                        Some((base, len)) => old(self).mmio().push(
                            MmioRoute { base, len, device_index: index },
                        ),
                        None => old(self).mmio(),
                    })
                    &&& final(self).io() == (match io_ports {
                        Some((base, len)) => old(self).io().push(
                            IoPortRoute { base, len, device_index: index },
                        ),
                        None => old(self).io(),
                    })
                    &&& final(self).irqs() == (match irq {
                        Some(line) => irq_bound(old(self).irqs(), index, line),
                        None => old(self).irqs(),
                    })
                    &&& irq_of(final(self).irqs(), index) == irq
                },
            },
    {
        let graph = self.take();
        let index: usize = graph.devices.len();
        let mut mmio_routes = graph.mmio_routes;
        let mut io_routes = graph.io_routes;
        if let Some((base, len)) = mmio_range {
            if let Err(e) = mmio_routes.insert(base, len, index) {
                *self = VirtualDeviceGraph { mmio_routes, io_routes, ..graph };
                return Err(e);
            }
        }
        if let Some((base, len)) = io_ports {
            if let Err(e) = io_routes.insert(base, len, index) {
                if mmio_range.is_some() {
                    mmio_routes.remove_last();
                    assert(mmio_routes@ =~= old(self).mmio());
                }
                *self = VirtualDeviceGraph { mmio_routes, io_routes, ..graph };
                return Err(e);
            }
        }
        let mut irq_routes = graph.irq_routes;
        proof {
            unnamed_has_no_line(irq_routes@, index);
        }
        if let Some(line) = irq {
            proof {
                bound_names_registered(irq_routes@, index, line);
                irq_lookup_after_bind(irq_routes@, index, line, index);
            }
            irq_routes.insert(index, line);
        }
        let mut devices = graph.devices;
        devices.push(device);
        *self = VirtualDeviceGraph { vm_id: graph.vm_id, devices, mmio_routes, io_routes, irq_routes };
        Ok(index)
    }

    /// Dispatch an MMIO read at global guest physical `addr`: the routed device
    /// is asked for its local offset, and its answer is returned.
    pub fn dispatch_mmio_read(&mut self, addr: u64, width: Width) -> (r: Result<u64, DevError>)
        ensures
            match mmio_target(old(self).mmio(), addr) {
                None => r == Err::<u64, DevError>(DevError::UnmappedAddress(addr))
                    && Self::same_but(*old(self), *final(self), -1),
                Some((index, offset)) => Self::used(
                    *old(self),
                    *final(self),
                    index as int,
                    DeviceOp::MmioRead { offset, width, answer: r },
                ),
            },
    {
        match self.mmio_routes.translate(addr) {
            None => Err(DevError::UnmappedAddress(addr)),
            Some((index, offset)) => {
                let graph = self.take();
                let mut devices = graph.devices;
                let answer = devices[index].mmio_read(offset, width);
                *self = VirtualDeviceGraph { devices, ..graph };
                answer
            },
        }
    }

    /// Dispatch an MMIO write at global guest physical `addr`.
    pub fn dispatch_mmio_write(&mut self, addr: u64, width: Width, value: u64) -> (r: Result<
        (),
        DevError,
    >)
        ensures
            match mmio_target(old(self).mmio(), addr) {
                None => r == Err::<(), DevError>(DevError::UnmappedAddress(addr))
                    && Self::same_but(*old(self), *final(self), -1),
                Some((index, offset)) => Self::used(
                    *old(self),
                    *final(self),
                    index as int,
                    DeviceOp::MmioWrite { offset, width, value, answer: r },
                ),
            },
    {
        match self.mmio_routes.translate(addr) {
            None => Err(DevError::UnmappedAddress(addr)),
            Some((index, offset)) => {
                let graph = self.take();
                let mut devices = graph.devices;
                let answer = devices[index].mmio_write(offset, width, value);
                *self = VirtualDeviceGraph { devices, ..graph };
                answer
            },
        }
    }

    /// Dispatch an I/O-port read at global `port`.
    pub fn dispatch_io_read(&mut self, port: u16, width: Width) -> (r: Result<u32, DevError>)
        ensures
            match io_target(old(self).io(), port) {
                None => r == Err::<u32, DevError>(DevError::UnknownPort(port)) && Self::same_but(
                    *old(self),
                    *final(self),
                    -1,
                ),
                Some((index, local)) => Self::used(
                    *old(self),
                    *final(self),
                    index as int,
                    DeviceOp::IoRead { port: local, width, answer: r },
                ),
            },
    {
        match self.io_routes.translate(port) {
            None => Err(DevError::UnknownPort(port)),
            Some((index, local)) => {
                let graph = self.take();
                let mut devices = graph.devices;
                let answer = devices[index].io_read(local, width);
                *self = VirtualDeviceGraph { devices, ..graph };
                answer
            },
        }
    }

    /// Dispatch an I/O-port write at global `port`.
    pub fn dispatch_io_write(&mut self, port: u16, width: Width, value: u32) -> (r: Result<
        (),
        DevError,
    >)
        ensures
            match io_target(old(self).io(), port) {
                None => r == Err::<(), DevError>(DevError::UnknownPort(port)) && Self::same_but(
                    *old(self),
                    *final(self),
                    -1,
                ),
                Some((index, local)) => Self::used(
                    *old(self),
                    *final(self),
                    index as int,
                    DeviceOp::IoWrite { port: local, width, value, answer: r },
                ),
            },
    {
        match self.io_routes.translate(port) {
            None => Err(DevError::UnknownPort(port)),
            Some((index, local)) => {
                let graph = self.take();
                let mut devices = graph.devices;
                let answer = devices[index].io_write(local, width, value);
                *self = VirtualDeviceGraph { devices, ..graph };
                answer
            },
        }
    }

    /// Tick the device at `index`, returning its requested action.
    pub fn tick_device(&mut self, index: usize) -> (r: Result<DeviceAction, DevError>)
        ensures
            index >= old(self).count() ==> r == Err::<DeviceAction, DevError>(
                DevError::UnknownDevice(index),
            ) && Self::same_but(*old(self), *final(self), -1),
            index < old(self).count() ==> {
                &&& r matches Ok(action) && Self::used(
                    *old(self),
                    *final(self),
                    index as int,
                    DeviceOp::Tick { action },
                )
            },
    {
        if index < self.devices.len() {
            let graph = self.take();
            let mut devices = graph.devices;
            let action = devices[index].tick();
            *self = VirtualDeviceGraph { devices, ..graph };
            Ok(action)
        } else {
            Err(DevError::UnknownDevice(index))
        }
    }

    /// Look up the IRQ line bound to the device at `index`.
    pub fn irq_for(&self, index: usize) -> (r: Option<u8>)
        ensures
            r == irq_of(self.irqs(), index),
    {
        self.irq_routes.irq_for(index)
    }

    /// Reset the device at `index`.
    pub fn reset_device(&mut self, index: usize) -> (r: Result<(), DevError>)
        ensures
            index >= old(self).count() ==> r == Err::<(), DevError>(
                DevError::UnknownDevice(index),
            ) && Self::same_but(*old(self), *final(self), -1),
            index < old(self).count() ==> {
                &&& r is Ok
                &&& Self::used(*old(self), *final(self), index as int, DeviceOp::Reset)
            },
    {
        if index < self.devices.len() {
            let graph = self.take();
            let mut devices = graph.devices;
            devices[index].reset();
            *self = VirtualDeviceGraph { devices, ..graph };
            Ok(())
        } else {
            Err(DevError::UnknownDevice(index))
        }
    }
}

// ------------------------------------------------------------ test device

/// A minimal [`VirtualDevice`] with a register file of eight, behind both its
/// MMIO and its I/O surface (offset / 8 selects the register).
#[derive(Clone)]
pub struct TestDevice {
    id: DeviceId,
    regs: [u64; 8],
    ticks: u32,
    /// Number of ticks after which `tick` requests an IRQ, and on which line.
    irq_after: Option<(u32, u8)>,
    /// Every use so far.
    uses: Ghost<Seq<DeviceOp>>,
}

/// The register that an offset selects: only multiples of eight below the end
/// of the file.
pub open spec fn register_of(offset: u64) -> Result<int, DevError> {
    if offset % 8 != 0 || offset / 8 >= 8 {
        Err(DevError::OffsetOutOfRange { offset })
    } else {
        Ok((offset / 8) as int)
    }
}

/// The mask of an I/O access.
pub open spec fn io_mask(width: Width) -> u32 {
    (width.ones() & 0xffff_ffffu64) as u32
}

/// What a test device holds.
pub struct TestState {
    pub regs: Seq<u64>,
    pub ticks: u32,
    pub irq_after: Option<(u32, u8)>,
}

impl TestState {
    /// What the device holds after the use `op`: writes that fit are stored,
    /// ticks counted up to the limit of the counter, and a reset zeroes both.
    pub open spec fn stepped(self, op: DeviceOp) -> TestState {
        match op {
            DeviceOp::MmioWrite { offset, width, value, .. } => match register_of(offset) {
                Ok(i) if value & !width.ones() == 0 => TestState {
                    regs: self.regs.update(i, value),
                    ..self
                },
                _ => self,
            },
            DeviceOp::IoWrite { port, width, value, .. } => match register_of(port as u64) {
                Ok(i) if value & !io_mask(width) == 0 => TestState {
                    regs: self.regs.update(i, value as u64),
                    ..self
                },
                _ => self,
            },
            DeviceOp::Tick { .. } => TestState {
                ticks: if self.ticks == u32::MAX {
                    u32::MAX
                } else {
                    (self.ticks + 1) as u32
                },
                ..self
            },
            DeviceOp::Reset => TestState { regs: Seq::new(8, |i: int| 0u64), ticks: 0, ..self },
            _ => self,
        }
    }

    /// What the device holds after the uses `past`.
    pub open spec fn after(self, past: Seq<DeviceOp>) -> TestState
        decreases past.len(),
    {
        if past.len() == 0 {
            self
        } else {
            self.stepped(past[0]).after(past.drop_first())
        }
    }

    /// The answer in `op` is the one that the device gives.
    pub open spec fn answers(self, op: DeviceOp) -> bool {
        match op {
            DeviceOp::MmioRead { offset, width, answer } => answer == (match register_of(offset) {
                Ok(i) => Ok::<u64, DevError>(self.regs[i] & width.ones()),
                Err(e) => Err(e),
            }),
            DeviceOp::MmioWrite { offset, width, value, answer } => answer == (match register_of(
                offset,
            ) {
                Ok(_) if value & !width.ones() != 0 => Err::<(), DevError>(
                    DevError::ValueTooWide { value, width },
                ),
                Ok(_) => Ok(()),
                Err(e) => Err(e),
            }),
            DeviceOp::IoRead { port, width, answer } => answer == (match register_of(port as u64) {
                Ok(i) => Ok::<u32, DevError>((self.regs[i] as u32) & io_mask(width)),
                Err(e) => Err(e),
            }),
            DeviceOp::IoWrite { port, width, value, answer } => answer == (match register_of(
                port as u64,
            ) {
                Ok(_) if value & !io_mask(width) != 0 => Err::<(), DevError>(
                    DevError::ValueTooWide { value: value as u64, width },
                ),
                Ok(_) => Ok(()),
                Err(e) => Err(e),
            }),
            DeviceOp::Tick { action } => action == (match self.irq_after {
                Some((after, irq)) if self.stepped(op).ticks >= after => DeviceAction::RaiseIrq(
                    irq,
                ),
                _ => DeviceAction::Idle,
            }),
            DeviceOp::Reset => true,
        }
    }
}

/// Uses after a first one start from what that one left.
proof fn first_use_then_rest(s: TestState, op: DeviceOp)
    ensures
        forall|past: Seq<DeviceOp>| #[trigger]
            s.after(seq![op] + past) == s.stepped(op).after(past),
        s.after(Seq::empty()) == s,
{
    assert forall|past: Seq<DeviceOp>| #[trigger] s.after(seq![op] + past) == s.stepped(op).after(
        past,
    ) by {
        assert((seq![op] + past).drop_first() =~= past);
    }
}

impl TestDevice {
    /// What the device holds.
    pub closed spec fn state(&self) -> TestState {
        TestState { regs: self.regs@, ticks: self.ticks, irq_after: self.irq_after }
    }

    /// Register count in the backing file.
    pub const REG_COUNT: u64 = 8;

    /// Create a fresh device with the given id and zeroed registers.
    pub fn new(id: DeviceId) -> (r: Self)
        ensures
            r.id() == id,
            r.state() == (TestState {
                regs: Seq::new(8, |i: int| 0u64),
                ticks: 0,
                irq_after: None,
            }),
            r.log() == Seq::<DeviceOp>::empty(),
    {
        let r = TestDevice {
            id,
            regs: [0u64;8],
            ticks: 0,
            irq_after: None,
            uses: Ghost(Seq::empty()),
        };
        assert(r.regs@ =~= Seq::new(8, |i: int| 0u64));
        r
    }

    /// Configure the device to request `irq` once it has been ticked `after`
    /// times.
    pub fn with_irq_after(self, after: u32, irq: u8) -> (r: Self)
        ensures
            r.id() == self.id(),
            r.state() == (TestState { irq_after: Some((after, irq)), ..self.state() }),
            r.log() == self.log(),
    {
        let mut r = self;
        r.irq_after = Some((after, irq));
        r
    }

    /// Directly inspect a register.
    pub fn reg(&self, index: usize) -> (r: Option<u64>)
        ensures
            r == (if index < 8 {
                Some(self.state().regs[index as int])
            } else {
                None
            }),
    {
        if index < 8 {
            Some(self.regs[index])
        } else {
            None
        }
    }

    fn reg_index(offset: u64) -> (r: Result<usize, DevError>)
        ensures
            match register_of(offset) {
                Ok(i) => r matches Ok(k) && k == i && k < 8,
                Err(e) => r == Err::<usize, DevError>(e),
            },
    {
        if offset % 8 != 0 {
            return Err(DevError::OffsetOutOfRange { offset });
        }
        let idx: u64 = offset / 8;
        if idx >= Self::REG_COUNT {
            return Err(DevError::OffsetOutOfRange { offset });
        }
        Ok(idx as usize)
    }
}

impl VirtualDevice for TestDevice {
    closed spec fn id(&self) -> DeviceId {
        self.id
    }

    closed spec fn log(&self) -> Seq<DeviceOp> {
        self.uses@
    }

    /// Only the answer that what it then holds gives.
    open spec fn permits(&self, past: Seq<DeviceOp>, op: DeviceOp) -> bool {
        self.state().after(past).answers(op)
    }

    fn device_id(&self) -> (r: DeviceId) {
        self.id
    }

    fn mmio_read(&mut self, offset: u64, width: Width) -> (r: Result<u64, DevError>)
        ensures
            final(self).id() == old(self).id(),
            final(self).state() == old(self).state(),
            r == (match register_of(offset) {
                Ok(i) => Ok::<u64, DevError>(old(self).state().regs[i] & width.ones()),
                Err(e) => Err(e),
            }),
    {
        let r = match Self::reg_index(offset) {
            Ok(idx) => Ok(self.regs[idx] & width.mask()),
            Err(e) => Err(e),
        };
        proof {
            let op = DeviceOp::MmioRead { offset, width, answer: r };
            self.uses@ = self.uses@.push(op);
            first_use_then_rest(old(self).state(), op);
            assert(self.state() == old(self).state().stepped(op));
        }
        r
    }

    fn mmio_write(&mut self, offset: u64, width: Width, value: u64) -> (r: Result<(), DevError>)
        ensures
            final(self).id() == old(self).id(),
            final(self).state() == old(self).state().stepped(
                DeviceOp::MmioWrite { offset, width, value, answer: r },
            ),
            r == (match register_of(offset) {
                Ok(_) if value & !width.ones() != 0 => Err::<(), DevError>(
                    DevError::ValueTooWide { value, width },
                ),
                Ok(_) => Ok(()),
                Err(e) => Err(e),
            }),
    {
        let r = match Self::reg_index(offset) {
            Ok(idx) => {
                if value & !width.mask() != 0 {
                    Err(DevError::ValueTooWide { value, width })
                } else {
                    self.regs[idx] = value;
                    Ok(())
                }
            },
            Err(e) => Err(e),
        };
        proof {
            let op = DeviceOp::MmioWrite { offset, width, value, answer: r };
            self.uses@ = self.uses@.push(op);
            first_use_then_rest(old(self).state(), op);
            assert(self.state() == old(self).state().stepped(op));
        }
        r
    }

    fn io_read(&mut self, port: u16, width: Width) -> (r: Result<u32, DevError>)
        ensures
            final(self).id() == old(self).id(),
            final(self).state() == old(self).state(),
            r == (match register_of(port as u64) {
                Ok(i) => Ok::<u32, DevError>((old(self).state().regs[i] as u32) & io_mask(width)),
                Err(e) => Err(e),
            }),
    {
        let r = match Self::reg_index(port as u64) {
            Ok(idx) => {
                let mask: u32 = (width.mask() & 0xffff_ffffu64) as u32;
                Ok((self.regs[idx] as u32) & mask)
            },
            Err(e) => Err(e),
        };
        proof {
            let op = DeviceOp::IoRead { port, width, answer: r };
            self.uses@ = self.uses@.push(op);
            first_use_then_rest(old(self).state(), op);
            assert(self.state() == old(self).state().stepped(op));
        }
        r
    }

    fn io_write(&mut self, port: u16, width: Width, value: u32) -> (r: Result<(), DevError>)
        ensures
            final(self).id() == old(self).id(),
            final(self).state() == old(self).state().stepped(
                DeviceOp::IoWrite { port, width, value, answer: r },
            ),
            r == (match register_of(port as u64) {
                Ok(_) if value & !io_mask(width) != 0 => Err::<(), DevError>(
                    DevError::ValueTooWide { value: value as u64, width },
                ),
                Ok(_) => Ok(()),
                Err(e) => Err(e),
            }),
    {
        let r = match Self::reg_index(port as u64) {
            Ok(idx) => {
                let mask: u32 = (width.mask() & 0xffff_ffffu64) as u32;
                if value & !mask != 0 {
                    Err(DevError::ValueTooWide { value: value as u64, width })
                } else {
                    self.regs[idx] = value as u64;
                    Ok(())
                }
            },
            Err(e) => Err(e),
        };
        proof {
            let op = DeviceOp::IoWrite { port, width, value, answer: r };
            self.uses@ = self.uses@.push(op);
            first_use_then_rest(old(self).state(), op);
            assert(self.state() == old(self).state().stepped(op));
        }
        r
    }

    fn tick(&mut self) -> (r: DeviceAction)
        ensures
            final(self).id() == old(self).id(),
            final(self).state() == old(self).state().stepped(DeviceOp::Tick { action: r }),
            r == (match old(self).state().irq_after {
                Some((after, irq)) if final(self).state().ticks >= after => DeviceAction::RaiseIrq(
                    irq,
                ),
                _ => DeviceAction::Idle,
            }),
    {
        self.ticks = self.ticks.saturating_add(1);
        let mut action = DeviceAction::Idle;
        if let Some((after, irq)) = self.irq_after {
            if self.ticks >= after {
                action = DeviceAction::RaiseIrq(irq);
            }
        }
        proof {
            let op = DeviceOp::Tick { action };
            self.uses@ = self.uses@.push(op);
            first_use_then_rest(old(self).state(), op);
            assert(self.state() == old(self).state().stepped(op));
        }
        action
    }

    fn reset(&mut self)
        ensures
            final(self).id() == old(self).id(),
            final(self).state() == old(self).state().stepped(DeviceOp::Reset),
    {
        self.regs = [0u64;8];
        self.ticks = 0;
        assert(self.regs@ =~= Seq::new(8, |i: int| 0u64));
        proof {
            let op = DeviceOp::Reset;
            self.uses@ = self.uses@.push(op);
            first_use_then_rest(old(self).state(), op);
            assert(self.state() == old(self).state().stepped(op));
        }
    }
}

// ------------------------------------------------------------------- laws

/// An address is routed to at most one device: where no two routes overlap, at
/// most one covers it.
pub proof fn mmio_route_is_unique(routes: Seq<MmioRoute>, addr: u64, i: int, j: int)
    requires
        mmio_disjoint(routes),
        0 <= i < routes.len(),
        0 <= j < routes.len(),
        routes[i].covers(addr),
        routes[j].covers(addr),
    ensures
        i == j,
{
    if i < j {
        assert(!routes[i].meets(routes[j].base, routes[j].len));
    } else if j < i {
        assert(!routes[j].meets(routes[i].base, routes[i].len));
    }
}

/// A port is routed to at most one device.
pub proof fn io_route_is_unique(routes: Seq<IoPortRoute>, port: u16, i: int, j: int)
    requires
        io_disjoint(routes),
        0 <= i < routes.len(),
        0 <= j < routes.len(),
        routes[i].covers(port),
        routes[j].covers(port),
    ensures
        i == j,
{
    if i < j {
        assert(!routes[i].meets(routes[j].base, routes[j].len));
    } else if j < i {
        assert(!routes[j].meets(routes[i].base, routes[i].len));
    }
}

proof fn least_mmio_route(routes: Seq<MmioRoute>, addr: u64, i: int) -> (k: int)
    requires
        0 <= i < routes.len(),
        routes[i].covers(addr),
    ensures
        first_mmio_route(routes, addr, k),
    decreases i,
{
    if forall|j: int| 0 <= j < i ==> !(#[trigger] routes[j]).covers(addr) {
        i
    } else {
        let j = choose|j: int| 0 <= j < i && (#[trigger] routes[j]).covers(addr);
        least_mmio_route(routes, addr, j)
    }
}

/// Deny by default: an access is routed exactly where a route covers it.
pub proof fn mmio_routed_iff_covered(routes: Seq<MmioRoute>, addr: u64)
    ensures
        mmio_target(routes, addr) is Some <==> exists|i: int|
            0 <= i < routes.len() && (#[trigger] routes[i]).covers(addr),
{
    if exists|i: int| 0 <= i < routes.len() && (#[trigger] routes[i]).covers(addr) {
        let i = choose|i: int| 0 <= i < routes.len() && (#[trigger] routes[i]).covers(addr);
        let k = least_mmio_route(routes, addr, i);
        assert(first_mmio_route(routes, addr, k));
    }
    if mmio_target(routes, addr) is Some {
        let i = choose|i: int| first_mmio_route(routes, addr, i);
        assert(routes[i].covers(addr));
    }
}

proof fn least_io_route(routes: Seq<IoPortRoute>, port: u16, i: int) -> (k: int)
    requires
        0 <= i < routes.len(),
        routes[i].covers(port),
    ensures
        first_io_route(routes, port, k),
    decreases i,
{
    if forall|j: int| 0 <= j < i ==> !(#[trigger] routes[j]).covers(port) {
        i
    } else {
        let j = choose|j: int| 0 <= j < i && (#[trigger] routes[j]).covers(port);
        least_io_route(routes, port, j)
    }
}

/// Deny by default: a port access is routed exactly where a route covers it.
pub proof fn io_routed_iff_covered(routes: Seq<IoPortRoute>, port: u16)
    ensures
        io_target(routes, port) is Some <==> exists|i: int|
            0 <= i < routes.len() && (#[trigger] routes[i]).covers(port),
{
    if exists|i: int| 0 <= i < routes.len() && (#[trigger] routes[i]).covers(port) {
        let i = choose|i: int| 0 <= i < routes.len() && (#[trigger] routes[i]).covers(port);
        let k = least_io_route(routes, port, i);
        assert(first_io_route(routes, port, k));
    }
    if io_target(routes, port) is Some {
        let i = choose|i: int| first_io_route(routes, port, i);
        assert(routes[i].covers(port));
    }
}

/// In a well-formed graph no access is routed to a device that is not there.
pub proof fn routed_device_is_registered<D: VirtualDevice>(
    g: VirtualDeviceGraph<D>,
    addr: u64,
    port: u16,
)
    requires
        g.wf(),
    ensures
        mmio_target(g.mmio(), addr) matches Some((index, _)) ==> index < g.count(),
        io_target(g.io(), port) matches Some((index, _)) ==> index < g.count(),
{
    if io_target(g.io(), port) is Some {
        let i = choose|i: int| first_io_route(g.io(), port, i);
        assert(g.io()[i].device_index < g.count());
    }
    if mmio_target(g.mmio(), addr) is Some {
        let i = choose|i: int| first_mmio_route(g.mmio(), addr, i);
        assert(g.mmio()[i].device_index < g.count());
    }
}

/// What fits a width is read back as it was written with that width.
pub proof fn read_back_what_fits(value: u64, width: Width)
    requires
        value & !width.ones() == 0,
    ensures
        value & width.ones() == value,
{
    let m = width.ones();
    assert(value & !m == 0 ==> value & m == value) by (bit_vector);
}

/// What is written through the bus is read back through it: where device
/// `index` answers as the test device `d` does, a write that fits its width is
/// taken, and the next use of that device, a read of the same register with the
/// same width, gives the value.
pub proof fn bus_reads_back_what_it_wrote<D: VirtualDevice>(
    d: TestDevice,
    before: VirtualDeviceGraph<D>,
    between: VirtualDeviceGraph<D>,
    after: VirtualDeviceGraph<D>,
    index: int,
    offset: u64,
    width: Width,
    value: u64,
    written: Result<(), DevError>,
    read: Result<u64, DevError>,
)
    requires
        forall|past: Seq<DeviceOp>, op: DeviceOp| #[trigger]
            before.permits(index, past, op) ==> d.permits(past, op),
        register_of(offset) is Ok,
        value & !width.ones() == 0,
        VirtualDeviceGraph::used(
            before,
            between,
            index,
            DeviceOp::MmioWrite { offset, width, value, answer: written },
        ),
        VirtualDeviceGraph::used(
            between,
            after,
            index,
            DeviceOp::MmioRead { offset, width, answer: read },
        ),
    ensures
        written == Ok::<(), DevError>(()),
        read == Ok::<u64, DevError>(value),
{
    let write = DeviceOp::MmioWrite { offset, width, value, answer: written };
    let again = DeviceOp::MmioRead { offset, width, answer: read };
    first_use_then_rest(d.state(), write);
    read_back_what_fits(value, width);
    assert(d.permits(Seq::empty(), write));
    assert(between.permits(index, Seq::empty(), again));
    assert(d.permits(seq![write] + Seq::empty(), again));
    first_use_then_rest(d.state().stepped(write), again);
}

/// What is written to a port is read back from it: where device `index` answers
/// as the test device `d` does, a write that fits its width is taken, and the
/// next use of that device, a read of the same register with the same width,
/// gives the value.
pub proof fn port_reads_back_what_was_written<D: VirtualDevice>(
    d: TestDevice,
    before: VirtualDeviceGraph<D>,
    between: VirtualDeviceGraph<D>,
    after: VirtualDeviceGraph<D>,
    index: int,
    port: u16,
    width: Width,
    value: u32,
    written: Result<(), DevError>,
    read: Result<u32, DevError>,
)
    requires
        forall|past: Seq<DeviceOp>, op: DeviceOp| #[trigger]
            before.permits(index, past, op) ==> d.permits(past, op),
        register_of(port as u64) is Ok,
        value & !io_mask(width) == 0,
        VirtualDeviceGraph::used(
            before,
            between,
            index,
            DeviceOp::IoWrite { port, width, value, answer: written },
        ),
        VirtualDeviceGraph::used(
            between,
            after,
            index,
            DeviceOp::IoRead { port, width, answer: read },
        ),
    ensures
        written == Ok::<(), DevError>(()),
        read == Ok::<u32, DevError>(value),
{
    let write = DeviceOp::IoWrite { port, width, value, answer: written };
    let again = DeviceOp::IoRead { port, width, answer: read };
    first_use_then_rest(d.state(), write);
    let m = io_mask(width);
    assert(value & !m == 0 ==> ((value as u64) as u32) & m == value) by (bit_vector);
    assert(d.permits(Seq::empty(), write));
    assert(between.permits(index, Seq::empty(), again));
    assert(d.permits(seq![write] + Seq::empty(), again));
    first_use_then_rest(d.state().stepped(write), again);
}

} // verus!
