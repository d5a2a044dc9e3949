//! Guest memory: nested paging, zeroing, quotas and traps.
use hyper_slate::mm::{
    GuestMemoryMap, GuestMemoryRegion, GuestPhysAddr, GuestPhysRange, HostPhysAddr, HostPhysRange,
    InMemoryNpt, MemoryQuotaManager, MmError, MmioTrapRegistry, NestedPageTable, Npt, PageState,
    PageZeroizer, Perms, RegionKind, VmId, PAGE_SIZE, SCHEMA_VERSION,
};


const VM: &str = "vm-test-0";

fn npt() -> NestedPageTable<InMemoryNpt> {
    NestedPageTable::new(InMemoryNpt::new())
}

#[test]
fn perms_consts() {
    assert!(!Perms::ro().is_write_execute());
    assert!(!Perms::rw().is_write_execute());
    assert!(!Perms::rx().is_write_execute());
    let wx = Perms {
        r: true,
        w: true,
        x: true,
    };
    assert!(wx.is_write_execute());
}

#[test]
fn deny_by_default_translate_unmapped_is_none() {
    let table = npt();
    assert_eq!(table.translate(GuestPhysAddr(0x1000)), None);
    let inner = InMemoryNpt::new();
    assert_eq!(inner.translate(GuestPhysAddr(0)), None);
}

#[test]
fn map_then_translate_with_offset() {
    let mut table = npt();
    table.zeroizer_mut().mark_zeroed(HostPhysAddr(0x4000), PAGE_SIZE);
    let id = table
        .map(GuestPhysAddr(0x1000), HostPhysAddr(0x4000), PAGE_SIZE, Perms::rw())
        .unwrap();
    assert_eq!(id, 0);
    assert_eq!(
        table.translate(GuestPhysAddr(0x1000)),
        Some(HostPhysAddr(0x4000))
    );
    assert_eq!(
        table.translate(GuestPhysAddr(0x1010)),
        Some(HostPhysAddr(0x4010))
    );
    assert_eq!(table.translate(GuestPhysAddr(0x2000)), None);
}

#[test]
fn deterministic_mapping_ids() {
    let mut inner = InMemoryNpt::new();
    let a = inner
        .map(GuestPhysAddr(0), HostPhysAddr(0), PAGE_SIZE, Perms::ro())
        .unwrap();
    let b = inner
        .map(GuestPhysAddr(PAGE_SIZE), HostPhysAddr(PAGE_SIZE), PAGE_SIZE, Perms::ro())
        .unwrap();
    assert_eq!((a, b), (0, 1));
    assert_eq!(inner.len(), 2);
    assert!(!inner.is_empty());
}

#[test]
fn wx_map_is_rejected() {
    let mut table = npt();
    table.zeroizer_mut().mark_zeroed(HostPhysAddr(0x4000), PAGE_SIZE);
    let wx = Perms {
        r: true,
        w: true,
        x: true,
    };
    let err = table
        .map(GuestPhysAddr(0x1000), HostPhysAddr(0x4000), PAGE_SIZE, wx)
        .unwrap_err();
    assert_eq!(err, MmError::WriteExecuteForbidden);
    assert!(!table.has_writable_executable_pages());
}

#[test]
fn overlap_reserved_host_range_is_rejected() {
    let reserved = HostPhysRange {
        start: HostPhysAddr(0x8000),
        len: PAGE_SIZE,
    };
    let mut table =
        NestedPageTable::with_reserved_host_range(InMemoryNpt::new(), reserved);
    table.zeroizer_mut().mark_zeroed(HostPhysAddr(0x8000), PAGE_SIZE);
    let err = table
        .map(GuestPhysAddr(0x1000), HostPhysAddr(0x8000), PAGE_SIZE, Perms::rw())
        .unwrap_err();
    assert_eq!(err, MmError::OverlapsReservedHostRange);
    assert!(!table.maps_host_hypervisor_text());

    // A non-overlapping host range is accepted.
    table.zeroizer_mut().mark_zeroed(HostPhysAddr(0x9000), PAGE_SIZE);
    table
        .map(GuestPhysAddr(0x1000), HostPhysAddr(0x9000), PAGE_SIZE, Perms::rw())
        .unwrap();
    assert!(!table.maps_host_hypervisor_text());
}

#[test]
fn assign_non_zeroed_page_is_rejected() {
    let mut table = npt();
    // No mark_zeroed call -> page is not zeroed.
    let err = table
        .map(GuestPhysAddr(0x1000), HostPhysAddr(0x4000), PAGE_SIZE, Perms::rw())
        .unwrap_err();
    assert_eq!(err, MmError::PageNotZeroed);
}

#[test]
fn poisoned_page_rejected_until_rezeroed() {
    let mut table = npt();
    table.zeroizer_mut().mark_zeroed(HostPhysAddr(0x4000), PAGE_SIZE);
    let id = table
        .map(GuestPhysAddr(0x1000), HostPhysAddr(0x4000), PAGE_SIZE, Perms::rw())
        .unwrap();
    table.unmap(id).unwrap();
    assert_eq!(
        table.zeroizer().state(HostPhysAddr(0x4000)),
        Some(PageState::Poisoned)
    );
    // Re-map without re-zeroing -> poisoned.
    let err = table
        .map(GuestPhysAddr(0x1000), HostPhysAddr(0x4000), PAGE_SIZE, Perms::rw())
        .unwrap_err();
    assert_eq!(err, MmError::PagePoisoned);
    // After re-zeroing it works again.
    table.zeroizer_mut().mark_zeroed(HostPhysAddr(0x4000), PAGE_SIZE);
    table
        .map(GuestPhysAddr(0x1000), HostPhysAddr(0x4000), PAGE_SIZE, Perms::rw())
        .unwrap();
}

#[test]
fn allocate_yields_zeroed_before_assign_true() {
    let mut table = npt();
    let rec = table
        .allocate(
            VmId::new(VM),
            GuestPhysAddr(0x1000),
            HostPhysAddr(0x4000),
            PAGE_SIZE,
            Perms::rw(),
        )
        .unwrap();
    assert!(rec.zeroed_before_assign);
    assert_eq!(rec.owner_vm_id, VmId::new(VM));
    assert_eq!(rec.npt_mapping_id, 0);
    assert_eq!(rec.host_physical_range.start, HostPhysAddr(0x4000));
    assert_eq!(rec.guest_physical_range.start, GuestPhysAddr(0x1000));
    assert_eq!(
        table.translate(GuestPhysAddr(0x1000)),
        Some(HostPhysAddr(0x4000))
    );
}

#[test]
fn allocate_still_enforces_wx() {
    let mut table = npt();
    let wx = Perms {
        r: true,
        w: true,
        x: true,
    };
    let err = table
        .allocate(
            VmId::new(VM),
            GuestPhysAddr(0x1000),
            HostPhysAddr(0x4000),
            PAGE_SIZE,
            wx,
        )
        .unwrap_err();
    assert_eq!(err, MmError::WriteExecuteForbidden);
}

#[test]
fn quota_over_reserve_is_rejected() {
    let mut q = MemoryQuotaManager::new(128);
    q.try_reserve(64).unwrap();
    q.try_reserve(64).unwrap();
    assert_eq!(q.used_mb, 128);
    assert_eq!(q.available_mb(), 0);
    let err = q.try_reserve(1).unwrap_err();
    assert_eq!(
        err,
        MmError::QuotaExceeded {
            requested_mb: 1,
            available_mb: 0
        }
    );
    q.release(64);
    q.try_reserve(64).unwrap();
}

#[test]
fn unmap_unknown_is_error() {
    let mut inner = InMemoryNpt::new();
    assert_eq!(inner.unmap(99), Err(MmError::UnknownMapping(99)));
}

#[test]
fn zero_length_map_rejected() {
    let mut inner = InMemoryNpt::new();
    assert_eq!(
        inner.map(GuestPhysAddr(0), HostPhysAddr(0), 0, Perms::ro()),
        Err(MmError::ZeroLength)
    );
    let mut table = npt();
    assert_eq!(
        table.map(GuestPhysAddr(0), HostPhysAddr(0), 0, Perms::ro()),
        Err(MmError::ZeroLength)
    );
}

#[test]
fn mmio_trap_registry_register_and_lookup() {
    let mut reg = MmioTrapRegistry::new();
    reg.register(
        GuestPhysRange {
            start: GuestPhysAddr(0xfee0_0000),
            len: 0x1000,
        },
        "lapic",
    );
    let hit = reg.lookup(GuestPhysAddr(0xfee0_0500)).unwrap();
    assert_eq!(hit.device, "lapic");
    assert!(reg.lookup(GuestPhysAddr(0x1000)).is_none());
}

#[test]
fn guest_memory_map_regions_and_mmio() {
    let mut map = GuestMemoryMap::new(VmId::new(VM), 0x1000);
    map.add_region(
        GuestMemoryRegion {
            gpa_start: GuestPhysAddr(0),
            len: 0x10000,
            kind: RegionKind::GuestRam,
            perms: Perms::rw(),
        },
        "",
    );
    map.add_region(
        GuestMemoryRegion {
            gpa_start: GuestPhysAddr(0xfee0_0000),
            len: 0x1000,
            kind: RegionKind::MmioTrap,
            perms: Perms::rw(),
        },
        "lapic",
    );
    assert_eq!(map.regions.len(), 2);
    assert_eq!(map.mmio_traps.traps().len(), 1);
    assert_eq!(
        map.region_at(GuestPhysAddr(0x500)).unwrap().kind,
        RegionKind::GuestRam
    );
    assert!(map.mmio_traps.lookup(GuestPhysAddr(0xfee0_0001)).is_some());
    assert_eq!(map.schema_version, SCHEMA_VERSION);
}

#[test]
fn host_range_overlap_logic() {
    let a = HostPhysRange {
        start: HostPhysAddr(0),
        len: 0x1000,
    };
    let b = HostPhysRange {
        start: HostPhysAddr(0x1000),
        len: 0x1000,
    };
    let c = HostPhysRange {
        start: HostPhysAddr(0x800),
        len: 0x1000,
    };
    assert!(!a.overlaps(&b)); // adjacent, half-open: no overlap
    assert!(a.overlaps(&c));
    assert!(c.overlaps(&b));
}

#[test]
fn freed_page_is_assignable_only_after_zeroing() {
    let mut z = PageZeroizer::new();
    assert_eq!(z.state(HostPhysAddr(0x4000)), None);
    assert_eq!(z.assign(HostPhysAddr(0x4000), PAGE_SIZE), Err(MmError::PageNotZeroed));
    z.mark_zeroed(HostPhysAddr(0x4000), PAGE_SIZE);
    assert!(z.is_zeroed(HostPhysAddr(0x4000), PAGE_SIZE));
    z.assign(HostPhysAddr(0x4000), PAGE_SIZE).unwrap();
    z.poison(HostPhysAddr(0x4000), PAGE_SIZE);
    assert_eq!(z.state(HostPhysAddr(0x4000)), Some(PageState::Poisoned));
    assert_eq!(z.assign(HostPhysAddr(0x4000), PAGE_SIZE), Err(MmError::PagePoisoned));
}

#[test]
fn mapping_that_leaves_the_address_space_is_handled() {
    let mut inner = InMemoryNpt::new();
    let id = inner.map(GuestPhysAddr(u64::MAX - 1), HostPhysAddr(0), 1, Perms::ro()).unwrap();
    assert_eq!(inner.translate(GuestPhysAddr(u64::MAX - 1)), Some(HostPhysAddr(0)));
    assert_eq!(inner.unmap(id), Ok(()));
    assert_eq!(inner.translate(GuestPhysAddr(u64::MAX - 1)), None);
}

#[test]
fn range_reserved_later_is_reported() {
    let mut t = NestedPageTable::new(InMemoryNpt::new());
    t.zeroizer_mut().mark_zeroed(HostPhysAddr(0x10000), PAGE_SIZE);
    t.map(GuestPhysAddr(0), HostPhysAddr(0x10000), PAGE_SIZE, Perms::rw()).unwrap();
    assert!(!t.maps_host_hypervisor_text());
    t.set_reserved_host_range(HostPhysRange { start: HostPhysAddr(0x10000), len: 1 });
    assert!(t.maps_host_hypervisor_text());
    assert!(!t.has_writable_executable_pages());
}

#[test]
fn memory_errors_show_what_is_wrong() {
    let shown = [
        (MmError::ZeroLength, "zero-length mapping is not allowed"),
        (
            MmError::WriteExecuteForbidden,
            "writable+executable mapping rejected (W^X violation)",
        ),
        (
            MmError::OverlapsReservedHostRange,
            "mapping host range overlaps the reserved host/hypervisor range",
        ),
        (MmError::PageNotZeroed, "target host page(s) not zeroed before assignment"),
        (
            MmError::PagePoisoned,
            "host page is poisoned and cannot be assigned until re-zeroed",
        ),
        (MmError::UnknownMapping(17), "unknown mapping id 17"),
        (
            MmError::QuotaExceeded { requested_mb: 8, available_mb: 5 },
            "memory quota exceeded: requested 8 MB, 5 MB available",
        ),
    ];
    for (e, text) in shown {
        assert_eq!(e.message(), text);
    }
}

#[test]
fn mappings_are_listed_by_id() {
    let mut npt = InMemoryNpt::new();
    for i in 0..4u64 {
        let at = 0x1000 * (4 - i);
        assert_eq!(npt.map(GuestPhysAddr(at), HostPhysAddr(0x9000 + at), 0x1000, Perms::rw()), Ok(i));
    }
    npt.unmap(1).unwrap();
    assert_eq!(npt.unmap(1), Err(MmError::UnknownMapping(1)));
    let ids: Vec<u64> = npt.mappings().iter().map(|m| m.id).collect();
    assert_eq!(ids, vec![0, 2, 3]);
    assert_eq!(npt.len(), 3);
    assert_eq!(npt.translate(GuestPhysAddr(0x3000)), None);
    assert_eq!(npt.translate(GuestPhysAddr(0x2008)), Some(HostPhysAddr(0xb008)));
    // Where two mappings cover an address, the one with the lower id decides.
    npt.map(GuestPhysAddr(0x2000), HostPhysAddr(0x70000), 0x1000, Perms::rw()).unwrap();
    assert_eq!(npt.translate(GuestPhysAddr(0x2008)), Some(HostPhysAddr(0xb008)));
}
