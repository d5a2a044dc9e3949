//! The virtual device bus.
use hyper_slate::devices::{
    DevError, DeviceAction, DeviceId, IoPortRouteTable, IrqRouteTable, MmioRouteTable, TestDevice,
    VirtualDevice, VirtualDeviceGraph, Width,
};
use hyper_slate::mm::VmId;


const VM: &str = "vm-dev-0";

fn graph() -> VirtualDeviceGraph<Box<dyn VirtualDevice>> {
    VirtualDeviceGraph::new(VmId::new(VM))
}

#[test]
fn width_helpers() {
    assert_eq!(Width::Byte.bytes(), 1);
    assert_eq!(Width::Word.bytes(), 2);
    assert_eq!(Width::Dword.bytes(), 4);
    assert_eq!(Width::Qword.bytes(), 8);
    assert_eq!(Width::Byte.mask(), 0xff);
    assert_eq!(Width::Word.mask(), 0xffff);
    assert_eq!(Width::Dword.mask(), 0xffff_ffff);
    assert_eq!(Width::Qword.mask(), u64::MAX);
    assert_eq!(Width::Qword.bits(), 64);
}

#[test]
fn register_and_mmio_roundtrip() {
    let mut g = graph();
    let idx = g
        .register(
            Box::new(TestDevice::new(DeviceId(1))),
            Some((0xfee0_0000, 0x40)),
            None,
            None,
        )
        .unwrap();
    assert_eq!(idx, 0);
    assert_eq!(g.device_count(), 1);

    // Write then read back through the global address.
    g.dispatch_mmio_write(0xfee0_0008, Width::Qword, 0xdead_beef)
        .unwrap();
    let v = g.dispatch_mmio_read(0xfee0_0008, Width::Qword).unwrap();
    assert_eq!(v, 0xdead_beef);

    // Offset translation: base maps to device offset 0.
    g.dispatch_mmio_write(0xfee0_0000, Width::Dword, 0x1234)
        .unwrap();
    assert_eq!(
        g.dispatch_mmio_read(0xfee0_0000, Width::Dword).unwrap(),
        0x1234
    );
}

#[test]
fn unknown_mmio_is_denied() {
    let mut g = graph();
    g.register(
        Box::new(TestDevice::new(DeviceId(1))),
        Some((0x1000, 0x40)),
        None,
        None,
    )
    .unwrap();
    // Outside the registered range.
    assert_eq!(
        g.dispatch_mmio_read(0x2000, Width::Dword),
        Err(DevError::UnmappedAddress(0x2000))
    );
    assert_eq!(
        g.dispatch_mmio_write(0x2000, Width::Dword, 0),
        Err(DevError::UnmappedAddress(0x2000))
    );
    // Empty graph denies everything.
    let mut empty = graph();
    assert_eq!(
        empty.dispatch_mmio_read(0x1000, Width::Byte),
        Err(DevError::UnmappedAddress(0x1000))
    );
}

#[test]
fn io_port_roundtrip_and_translation() {
    let mut g = graph();
    g.register(
        Box::new(TestDevice::new(DeviceId(7))),
        None,
        Some((0x60, 0x40)),
        None,
    )
    .unwrap();
    // Port 0x68 -> device-local port 0x08 -> register 1.
    g.dispatch_io_write(0x68, Width::Dword, 0xcafe).unwrap();
    assert_eq!(g.dispatch_io_read(0x68, Width::Dword).unwrap(), 0xcafe);
}

#[test]
fn unknown_port_is_denied() {
    let mut g = graph();
    g.register(
        Box::new(TestDevice::new(DeviceId(7))),
        None,
        Some((0x60, 0x10)),
        None,
    )
    .unwrap();
    assert_eq!(
        g.dispatch_io_read(0x300, Width::Byte),
        Err(DevError::UnknownPort(0x300))
    );
    assert_eq!(
        g.dispatch_io_write(0x300, Width::Byte, 0),
        Err(DevError::UnknownPort(0x300))
    );
}

#[test]
fn irq_lookup() {
    let mut g = graph();
    let idx = g
        .register(
            Box::new(TestDevice::new(DeviceId(2))),
            Some((0x5000, 0x10)),
            None,
            Some(11),
        )
        .unwrap();
    assert_eq!(g.irq_for(idx), Some(11));
    // A device with no irq returns None.
    let idx2 = g
        .register(
            Box::new(TestDevice::new(DeviceId(3))),
            Some((0x6000, 0x10)),
            None,
            None,
        )
        .unwrap();
    assert_eq!(g.irq_for(idx2), None);
}

#[test]
fn tick_action_raises_irq() {
    let mut g = graph();
    let idx = g
        .register(
            Box::new(TestDevice::new(DeviceId(4)).with_irq_after(2, 9)),
            Some((0x7000, 0x10)),
            None,
            Some(9),
        )
        .unwrap();
    assert_eq!(g.tick_device(idx).unwrap(), DeviceAction::Idle);
    assert_eq!(g.tick_device(idx).unwrap(), DeviceAction::RaiseIrq(9));
}

#[test]
fn tick_unknown_device_denied() {
    let mut g = graph();
    assert_eq!(g.tick_device(99), Err(DevError::UnknownDevice(99)));
    assert_eq!(g.reset_device(99), Err(DevError::UnknownDevice(99)));
}

#[test]
fn reset_clears_registers() {
    let mut g = graph();
    let idx = g
        .register(
            Box::new(TestDevice::new(DeviceId(5))),
            Some((0x8000, 0x40)),
            None,
            None,
        )
        .unwrap();
    g.dispatch_mmio_write(0x8000, Width::Qword, 0x42).unwrap();
    assert_eq!(g.dispatch_mmio_read(0x8000, Width::Qword).unwrap(), 0x42);
    g.reset_device(idx).unwrap();
    assert_eq!(g.dispatch_mmio_read(0x8000, Width::Qword).unwrap(), 0);
}

#[test]
fn overlapping_mmio_route_rejected() {
    let mut g = graph();
    g.register(
        Box::new(TestDevice::new(DeviceId(1))),
        Some((0x1000, 0x100)),
        None,
        None,
    )
    .unwrap();
    let err = g
        .register(
            Box::new(TestDevice::new(DeviceId(2))),
            Some((0x1080, 0x100)),
            None,
            None,
        )
        .unwrap_err();
    assert_eq!(err, DevError::UnmappedAddress(0x1000));
    // The second device must NOT have been registered.
    assert_eq!(g.device_count(), 1);
}

#[test]
fn overlapping_io_route_rolls_back_mmio() {
    let mut g = graph();
    g.register(
        Box::new(TestDevice::new(DeviceId(1))),
        None,
        Some((0x60, 0x10)),
        None,
    )
    .unwrap();
    // This registration adds a valid MMIO route but a conflicting IO route;
    // the whole registration must fail and roll back the MMIO route.
    let err = g
        .register(
            Box::new(TestDevice::new(DeviceId(2))),
            Some((0x9000, 0x10)),
            Some((0x68, 0x10)),
            None,
        )
        .unwrap_err();
    assert_eq!(err, DevError::UnknownPort(0x60));
    assert_eq!(g.device_count(), 1);
    // The rolled-back MMIO route must not resolve.
    assert_eq!(
        g.dispatch_mmio_read(0x9000, Width::Byte),
        Err(DevError::UnmappedAddress(0x9000))
    );
}

#[test]
fn zero_length_routes_rejected() {
    let mut mt = MmioRouteTable::new();
    assert!(mt.insert(0x1000, 0, 0).is_err());
    let mut it = IoPortRouteTable::new();
    assert!(it.insert(0x60, 0, 0).is_err());
}

#[test]
fn device_offset_out_of_range_and_value_too_wide() {
    let mut dev = TestDevice::new(DeviceId(1));
    // Unaligned offset.
    assert_eq!(
        dev.mmio_read(0x3, Width::Byte),
        Err(DevError::OffsetOutOfRange { offset: 0x3 })
    );
    // Beyond register file (8 regs * 8 bytes = 0x40).
    assert_eq!(
        dev.mmio_read(0x40, Width::Qword),
        Err(DevError::OffsetOutOfRange { offset: 0x40 })
    );
    // Value wider than the access width.
    assert_eq!(
        dev.mmio_write(0, Width::Byte, 0x1ff),
        Err(DevError::ValueTooWide {
            value: 0x1ff,
            width: Width::Byte
        })
    );
}

#[test]
fn width_truncates_on_read() {
    let mut dev = TestDevice::new(DeviceId(1));
    dev.mmio_write(0, Width::Qword, 0xdead_beef_cafe_babe)
        .unwrap();
    assert_eq!(dev.mmio_read(0, Width::Byte).unwrap(), 0xbe);
    assert_eq!(dev.mmio_read(0, Width::Word).unwrap(), 0xbabe);
    assert_eq!(dev.mmio_read(0, Width::Dword).unwrap(), 0xcafe_babe);
    assert_eq!(dev.reg(0), Some(0xdead_beef_cafe_babe));
}

#[test]
fn route_table_translate_direct() {
    let mut mt = MmioRouteTable::new();
    mt.insert(0x1000, 0x100, 3).unwrap();
    assert_eq!(mt.translate(0x1000), Some((3, 0)));
    assert_eq!(mt.translate(0x10ff), Some((3, 0xff)));
    assert_eq!(mt.translate(0x1100), None);
    assert_eq!(mt.routes().len(), 1);

    let mut it = IoPortRouteTable::new();
    it.insert(0x60, 0x10, 2).unwrap();
    assert_eq!(it.translate(0x60), Some((2, 0)));
    assert_eq!(it.translate(0x6f), Some((2, 0xf)));
    assert_eq!(it.translate(0x70), None);

    let mut irt = IrqRouteTable::new();
    irt.insert(5, 3);
    irt.insert(5, 4); // replace
    assert_eq!(irt.irq_for(5), Some(4));
    assert_eq!(irt.irq_for(6), None);
    assert_eq!(irt.routes().len(), 1);
}

#[test]
fn device_id_and_action_variants() {
    let dev = TestDevice::new(DeviceId(42));
    assert_eq!(dev.device_id(), DeviceId(42));
    assert_eq!(dev.device_id().get(), 42);
    // NeedsReset variant exists and is distinct.
    assert_ne!(DeviceAction::NeedsReset, DeviceAction::Idle);
}

#[test]
fn vm_id_is_preserved() {
    let g = graph();
    assert_eq!(g.vm_id().as_str(), VM);
}

#[test]
fn io_read_of_a_wide_register_is_cut() {
    let mut g: VirtualDeviceGraph<TestDevice> = VirtualDeviceGraph::new(VmId::new(VM));
    g.register(TestDevice::new(DeviceId(7)), None, Some((0x60, 0x40)), None).unwrap();
    assert_eq!(g.dispatch_io_write(0x60, Width::Byte, 0x100).unwrap_err(), DevError::ValueTooWide { value: 0x100, width: Width::Byte });
    g.dispatch_io_write(0x60, Width::Word, 0xabcd).unwrap();
    assert_eq!(g.dispatch_io_read(0x60, Width::Byte).unwrap(), 0xcd);
    assert_eq!(g.mmio_routes().routes().len(), 0);
    assert_eq!(g.io_routes().routes().len(), 1);
    assert_eq!(g.irq_routes().routes().len(), 0);
}

#[test]
fn registered_device_has_the_line_it_was_given() {
    let mut g: VirtualDeviceGraph<TestDevice> = VirtualDeviceGraph::new(VmId::new(VM));
    let a = g.register(TestDevice::new(DeviceId(1)), None, None, Some(4)).unwrap();
    let b = g.register(TestDevice::new(DeviceId(2)), None, None, None).unwrap();
    assert_eq!(g.irq_for(a), Some(4));
    assert_eq!(g.irq_for(b), None);
    assert_eq!(g.vm_id().as_str(), VM);
}

#[test]
fn bus_reads_back_what_it_wrote() {
    let mut g: VirtualDeviceGraph<TestDevice> = VirtualDeviceGraph::new(VmId::new(VM));
    g.register(TestDevice::new(DeviceId(1)), Some((0x1000, 0x100)), None, None).unwrap();
    let other = g.register(TestDevice::new(DeviceId(2)), Some((0x2000, 0x100)), None, None).unwrap();
    g.dispatch_mmio_write(0x1008, Width::Word, 0xbeef).unwrap();
    assert_eq!(g.dispatch_mmio_read(0x1008, Width::Word).unwrap(), 0xbeef);
    assert_eq!(g.dispatch_mmio_read(0x2008, Width::Word).unwrap(), 0);
    g.reset_device(other).unwrap();
    assert_eq!(g.dispatch_mmio_read(0x1008, Width::Word).unwrap(), 0xbeef);
}

#[test]
fn device_errors_show_what_is_wrong() {
    let shown = [
        (DevError::UnmappedAddress(0xfee0_0010), "unmapped MMIO address 0xfee00010"),
        (DevError::UnmappedAddress(0), "unmapped MMIO address 0x0"),
        (DevError::UnknownPort(0x3f8), "unknown I/O port 0x3f8"),
        (DevError::UnknownDevice(12), "unknown device index 12"),
        (
            DevError::UnsupportedWidth { offset: 0x1f, width: Width::Dword },
            "unsupported access width Dword at offset 0x1f",
        ),
        (DevError::OffsetOutOfRange { offset: 16 }, "offset 0x10 out of range for device"),
        (
            DevError::ValueTooWide { value: u64::MAX, width: Width::Byte },
            "value 0xffffffffffffffff does not fit access width Byte",
        ),
        (
            DevError::ValueTooWide { value: 0x1_0000, width: Width::Word },
            "value 0x10000 does not fit access width Word",
        ),
        (
            DevError::UnsupportedWidth { offset: 1, width: Width::Qword },
            "unsupported access width Qword at offset 0x1",
        ),
    ];
    for (e, text) in shown {
        assert_eq!(e.message(), text);
    }
}

#[test]
fn empty_routes_are_never_installed() {
    let mut mmio = MmioRouteTable::new();
    assert_eq!(mmio.insert(0x10, 0, 0), Err(DevError::OffsetOutOfRange { offset: 0x10 }));
    mmio.insert(0x10, 1, 0).unwrap();
    assert!(mmio.routes().iter().all(|r| r.len > 0));
    let mut io = IoPortRouteTable::new();
    assert_eq!(io.insert(0x10, 0, 0), Err(DevError::UnknownPort(0x10)));
    io.insert(0x10, 1, 0).unwrap();
    assert!(io.routes().iter().all(|r| r.len > 0));
}

#[test]
fn port_reads_back_what_was_written() {
    let mut g: VirtualDeviceGraph<TestDevice> = VirtualDeviceGraph::new(VmId::new(VM));
    g.register(TestDevice::new(DeviceId(1)), None, Some((0x60, 0x40)), None).unwrap();
    g.dispatch_io_write(0x68, Width::Dword, 0xdead_beef).unwrap();
    assert_eq!(g.dispatch_io_read(0x68, Width::Dword).unwrap(), 0xdead_beef);
}
