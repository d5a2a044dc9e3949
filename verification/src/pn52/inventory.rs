//! What is known of a machine, and its processor as a report names it.
use vstd::prelude::*;

use crate::lines;
use crate::pn52::acpi::AcpiTableInfo;
use crate::pn52::pci::PciDevice;
use crate::pn52::security::Pn52SecurityReport;
use crate::text;

verus! {

/// Inventory of a machine.
#[derive(Debug, Clone)]
pub struct Pn52Inventory {
    /// Schema version.
    pub schema_version: u32,
    /// When it was captured.
    pub captured_at_utc: String,
    /// Processor, where it is known.
    pub cpu: Option<Pn52CpuInfo>,
    /// PCI devices.
    pub pci_devices: Vec<PciDevice>,
    /// ACPI tables.
    pub acpi_tables: Vec<AcpiTableInfo>,
    /// Security state, where it is known.
    pub security: Option<Pn52SecurityReport>,
}

impl Default for Pn52Inventory {
    fn default() -> (r: Self)
        ensures
            r.schema_version == 0,
            r.captured_at_utc@ == Seq::<char>::empty(),
            r.cpu is None,
            r.pci_devices@ == Seq::<PciDevice>::empty(),
            r.acpi_tables@ == Seq::<AcpiTableInfo>::empty(),
            r.security is None,
    {
        Pn52Inventory {
            schema_version: 0,
            captured_at_utc: String::new(),
            cpu: None,
            pci_devices: Vec::new(),
            acpi_tables: Vec::new(),
            security: None,
        }
    }
}

/// A processor.
#[derive(Debug, Clone)]
pub struct Pn52CpuInfo {
    /// Model name.
    pub sku: String,
    /// Family.
    pub family: Option<u32>,
    /// Model.
    pub model: Option<u32>,
    /// Cores per socket.
    pub cores: Option<u32>,
    /// Hardware threads.
    pub threads: Option<u32>,
    /// Whether it has secure virtual machine support.
    pub svm: bool,
    /// Whether its time stamp counter is invariant.
    pub invariant_tsc: bool,
}

impl Default for Pn52CpuInfo {
    fn default() -> (r: Self)
        ensures
            r.sku@ == Seq::<char>::empty(),
            r.family is None,
            r.model is None,
            r.cores is None,
            r.threads is None,
            !r.svm,
            !r.invariant_tsc,
    {
        Pn52CpuInfo {
            sku: String::new(),
            family: None,
            model: None,
            cores: None,
            threads: None,
            svm: false,
            invariant_tsc: false,
        }
    }
}

/// What follows `label` on the last line that begins with it.
pub open spec fn last_labelled(ls: Seq<Seq<char>>, label: Seq<char>) -> Option<Seq<char>>
    decreases ls.len(),
{
    if ls.len() == 0 {
        None
    } else {
        match lines::after_prefix(ls.last(), label) {
            Some(v) => Some(v),
            None => last_labelled(ls.drop_last(), label),
        }
    }
}

/// The text of a labelled line, trimmed; empty where there is none.
pub open spec fn labelled_text(ls: Seq<Seq<char>>, label: Seq<char>) -> Seq<char> {
    match last_labelled(ls, label) {
        Some(v) => lines::trim(v),
        None => Seq::empty(),
    }
}

/// The number of a labelled line, where there is one and it is a number.
pub open spec fn labelled_number(ls: Seq<Seq<char>>, label: Seq<char>) -> Option<u32> {
    match last_labelled(ls, label) {
        Some(v) => lines::number(lines::trim(v)),
        None => None,
    }
}

/// What an `lscpu` report says of the processor.
pub open spec fn cpu_in(ls: Seq<Seq<char>>, cpu: Pn52CpuInfo) -> bool {
    &&& cpu.sku@ == labelled_text(ls, "Model name:"@)
    &&& cpu.threads == labelled_number(ls, "CPU(s):"@)
    &&& cpu.cores == labelled_number(ls, "Core(s) per socket:"@)
    &&& cpu.family is None
    &&& cpu.model is None
    &&& !cpu.svm
    &&& !cpu.invariant_tsc
}

/// What an `lscpu` report says of the processor: its model name, threads and
/// cores. A later line of a label stands in place of an earlier one.
pub fn parse_lscpu(text: &str) -> (r: Pn52CpuInfo)
    ensures
        cpu_in(lines::lines(text@), r),
{
    let all = lines::split_lines(text);
    let ghost ls = text::views(all@);
    let mut out = Pn52CpuInfo::default();
    let mut i: usize = 0;
    while i < all.len()
        invariant
            i <= all@.len(),
            ls == text::views(all@),
            cpu_in(ls.take(i as int), out),
        decreases all@.len() - i,
    {
        let line = all[i].as_str();
        assert(ls.take(i + 1).drop_last() =~= ls.take(i as int));
        assert(ls.take(i + 1).last() == line@);
        if let Some(v) = lines::strip_prefix(line, "Model name:") {
            out.sku = lines::trim_text(v.as_str());
        }
        if let Some(v) = lines::strip_prefix(line, "CPU(s):") {
            out.threads = lines::parse_number(lines::trim_text(v.as_str()).as_str());
        }
        if let Some(v) = lines::strip_prefix(line, "Core(s) per socket:") {
            out.cores = lines::parse_number(lines::trim_text(v.as_str()).as_str());
        }
        i = i + 1;
    }
    assert(ls.take(i as int) =~= ls);
    out
}

} // verus!
