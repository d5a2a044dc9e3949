//! Machine inventory from text reports, and register values.
use hyper_slate::lines;
use hyper_slate::pn52::acpi::detect_table_signatures;
use hyper_slate::pn52::inventory::{parse_lscpu, Pn52CpuInfo, Pn52Inventory};
use hyper_slate::pn52::pci::{parse_lspci_tree, PciDevice};
use hyper_slate::pn52::report::{doctor_report, markdown_report};
use hyper_slate::pn52::security::{parse_mokutil_state, SecureBootState};
use hyper_slate::slate_core::boot::{BootEpoch, MeasurementRef};
use hyper_slate::slate_core::keys::{KeyClass, KeyVersion};
use hyper_slate::slate_core::SCHEMA_VERSION;
use hyper_slate::svm::control::enable_svm_writes;
use hyper_slate::svm::iommu::looks_like_ivrs;
use hyper_slate::svm::msr::{join_value, split_value, EFER, EFER_SVME, VM_HSAVE_PA};
use hyper_slate::svm::npt::{identity_map_plan, NptRoot};

#[test]
fn lscpu_gives_model_threads_and_cores() {
    let report = "Architecture: x86_64\nCPU(s):              16\r\nOn-line CPU(s) list: 0-15\n\
                  Model name:  AMD Ryzen 9 5900HX \nCore(s) per socket: 8\n";
    let cpu = parse_lscpu(report);
    assert_eq!(cpu.sku, "AMD Ryzen 9 5900HX");
    assert_eq!(cpu.threads, Some(16));
    assert_eq!(cpu.cores, Some(8));
    assert_eq!(cpu.family, None);
    assert!(!cpu.svm);
}

#[test]
fn last_line_of_a_label_counts() {
    let cpu = parse_lscpu("CPU(s): 4\nCPU(s): many\nModel name:a\nModel name:");
    assert_eq!(cpu.threads, None);
    assert_eq!(cpu.sku, "");
    assert_eq!(parse_lscpu(" CPU(s): 4").threads, None);
    assert_eq!(parse_lscpu("").sku, Pn52CpuInfo::default().sku);
}

#[test]
fn lines_are_split_as_std_splits_them() {
    for s in [
        "", "\n", "a", "a\n", "a\r\n", "a\r", "\r\n", "a\n\nb", "a\r\n\r\nb\r", "\n\n", "x\ry\nz",
    ] {
        let want: Vec<String> = s.lines().map(|l| l.to_string()).collect();
        assert_eq!(lines::split_lines(s), want, "{s:?}");
    }
}

#[test]
fn text_is_trimmed_as_std_trims_it() {
    for s in ["", " ", "a", " a ", "\t\u{a0}a b\u{3000}\n", "\u{200b}a", "a\u{85}"] {
        assert_eq!(lines::trim_text(s), s.trim(), "{s:?}");
    }
}

#[test]
fn numbers_are_read_as_std_reads_them() {
    for s in [
        "", "0", "7", "+7", "-7", "+", "-", "4294967295", "4294967296", "00012", "1 2", "0x10",
        "\u{661}", "99999999999999999999",
    ] {
        assert_eq!(lines::parse_number(s), s.parse::<u32>().ok(), "{s:?}");
    }
}

#[test]
fn text_is_found_as_std_finds_it() {
    for (s, t) in [("", ""), ("abc", ""), ("abc", "c"), ("abc", "abcd"), ("aab", "ab"), ("", "a")] {
        assert_eq!(lines::contains_text(s, t), s.contains(t), "{s:?} {t:?}");
    }
    assert_eq!(lines::strip_prefix("abc", "ab"), Some("c".to_string()));
    assert_eq!(lines::strip_prefix("abc", "b"), None);
}

#[test]
fn acpi_tables_are_found_by_signature() {
    let found = detect_table_signatures("ACPI: RSDP 0x0 IVRS v02 TPM2");
    let present: Vec<(&str, bool)> = found.iter().map(|t| (t.signature.as_str(), t.present)).collect();
    assert_eq!(
        present,
        vec![
            ("RSDP", true),
            ("XSDT", false),
            ("FACP", false),
            ("APIC", false),
            ("MCFG", false),
            ("HPET", false),
            ("IVRS", true),
            ("TPM2", true),
        ]
    );
}

#[test]
fn lspci_lines_are_trimmed_and_empty_ones_left_out() {
    assert_eq!(
        parse_lspci_tree("-[0000:00]-+-00.0\n\n   +-01.0 \n \t\n"),
        vec!["-[0000:00]-+-00.0".to_string(), "+-01.0".to_string()]
    );
}

#[test]
fn secure_boot_state_is_read_in_any_case() {
    assert_eq!(parse_mokutil_state("SecureBoot enabled\n"), SecureBootState::Enabled);
    assert_eq!(parse_mokutil_state("SECUREBOOT DISABLED"), SecureBootState::Disabled);
    assert_eq!(parse_mokutil_state("this system doesn't support it"), SecureBootState::Unknown);
    assert_eq!(
        parse_mokutil_state("secureboot disabled, secureboot enabled"),
        SecureBootState::Enabled
    );
}

#[test]
fn report_shows_cpu_and_device_count() {
    let mut inv = Pn52Inventory::default();
    assert_eq!(
        markdown_report(&inv),
        "# PN52 inventory report\n\nschema_version: 0\n\n## PCI\n\n0 devices parsed.\n"
    );
    inv.schema_version = 3;
    inv.cpu = Some(Pn52CpuInfo { sku: "Ryzen".to_string(), svm: true, ..Pn52CpuInfo::default() });
    inv.pci_devices.push(PciDevice {
        bdf: "00:00.0".to_string(),
        class_name: "host".to_string(),
        vendor_device: "1022:1630".to_string(),
        driver: None,
        iommu_group: Some(0),
    });
    assert_eq!(
        markdown_report(&inv),
        "# PN52 inventory report\n\nschema_version: 3\n\n## CPU\n\n- sku: `Ryzen`\n- svm: `true`\n\
         - invariant_tsc: `false`\n\n## PCI\n\n1 devices parsed.\n"
    );
}

#[test]
fn doctor_says_unknown_for_an_empty_report() {
    assert_eq!(
        doctor_report(""),
        "# PN52 Doctor Report\n\nCPU: unknown\nThreads: None\n\
         Next: parse lspci/acpi/secureboot and emit full JSON.\n"
    );
    assert_eq!(
        doctor_report("Model name: Ryzen\nCPU(s): 16\n"),
        "# PN52 Doctor Report\n\nCPU: Ryzen\nThreads: Some(16)\n\
         Next: parse lspci/acpi/secureboot and emit full JSON.\n"
    );
}

#[test]
fn ivrs_is_known_by_its_signature() {
    assert!(looks_like_ivrs(b"IVRS\x00\x01"));
    assert!(looks_like_ivrs(b"IVRS"));
    assert!(!looks_like_ivrs(b"IVR"));
    assert!(!looks_like_ivrs(b"IVRT____"));
}

#[test]
fn register_values_travel_in_halves() {
    for v in [0u64, 1, 0xffff_ffff, 0x1_0000_0000, u64::MAX, 0xdead_beef_cafe_babe] {
        let (high, low) = split_value(v);
        assert_eq!((high, low), ((v >> 32) as u32, v as u32));
        assert_eq!(join_value(high, low), v);
    }
}

#[test]
fn enabling_adds_one_bit_and_sets_the_save_area() {
    let writes = enable_svm_writes(0xd01, 0x7000);
    assert_eq!(writes, [(EFER, 0x1d01), (VM_HSAVE_PA, 0x7000)]);
    assert_eq!(enable_svm_writes(0x1d01, 0)[0], (EFER, 0x1d01));
    assert_eq!(EFER_SVME, 1 << 12);
    assert_eq!(identity_map_plan(0x1000, 0x2000), NptRoot { pml4_pa: 0 });
}

#[test]
fn shared_vocabulary_compares_by_value() {
    assert_ne!(BootEpoch::Guest, BootEpoch::HypervisorHost);
    assert_eq!(MeasurementRef { pcr: 7, digest_len: 48 }.pcr, 7);
    assert_ne!(KeyClass::RecoveryKey, KeyClass::UserKey);
    assert_eq!(KeyVersion { key_id: "k", version: 2 }, KeyVersion { key_id: "k", version: 2 });
    assert_eq!(SCHEMA_VERSION, 1);
}
