//! Reports for people.
use vstd::prelude::*;

use crate::lines;
use crate::pn52::inventory;
use crate::pn52::inventory::{Pn52CpuInfo, Pn52Inventory};
use crate::text;

verus! {

/// A truth value as text.
pub open spec fn truth(b: bool) -> Seq<char> {
    if b {
        "true"@
    } else {
        "false"@
    }
}

/// A truth value as text.
fn truth_text(b: bool) -> (r: &'static str)
    ensures
        r@ == truth(b),
{
    if b {
        "true"
    } else {
        "false"
    }
}

/// The processor section of a report.
pub open spec fn cpu_section(cpu: Pn52CpuInfo) -> Seq<char> {
    "## CPU\n\n- sku: `"@ + cpu.sku@ + "`\n- svm: `"@ + truth(cpu.svm)
        + "`\n- invariant_tsc: `"@ + truth(cpu.invariant_tsc) + "`\n\n"@
}

/// The report on an inventory.
pub open spec fn report_on(inv: Pn52Inventory) -> Seq<char> {
    let head = "# PN52 inventory report\n\n"@ + "schema_version: "@ + text::decimal(
        inv.schema_version as nat,
    ) + "\n\n"@;
    let with_cpu = match inv.cpu {
        Some(cpu) => head + cpu_section(cpu),
        None => head,
    };
    with_cpu + "## PCI\n\n"@ + text::decimal(inv.pci_devices@.len()) + " devices parsed.\n"@
}

/// The report on an inventory, in Markdown.
pub fn markdown_report(inv: &Pn52Inventory) -> (r: String)
    ensures
        r@ == report_on(*inv),
{
    let mut s = "# PN52 inventory report\n\n".to_string();
    s.append("schema_version: ");
    s.append(text::decimal_text(inv.schema_version as u64).as_str());
    s.append("\n\n");
    if let Some(cpu) = &inv.cpu {
        let ghost head = s@;
        s.append("## CPU\n\n- sku: `");
        s.append(cpu.sku.as_str());
        s.append("`\n- svm: `");
        s.append(truth_text(cpu.svm));
        s.append("`\n- invariant_tsc: `");
        s.append(truth_text(cpu.invariant_tsc));
        s.append("`\n\n");
        assert(s@ =~= head + cpu_section(*cpu));
    }
    s.append("## PCI\n\n");
    s.append(text::decimal_text(inv.pci_devices.len() as u64).as_str());
    s.append(" devices parsed.\n");
    s
}

/// An optional number as text.
pub open spec fn shown_number(n: Option<u32>) -> Seq<char> {
    match n {
        Some(k) => "Some("@ + text::decimal(k as nat) + ")"@,
        None => "None"@,
    }
}

/// The quick report of the doctor on what `lscpu` said.
pub open spec fn doctor_text(ls: Seq<Seq<char>>) -> Seq<char> {
    let sku = inventory::labelled_text(ls, "Model name:"@);
    "# PN52 Doctor Report\n\nCPU: "@ + (if sku.len() == 0 {
        "unknown"@
    } else {
        sku
    }) + "\nThreads: "@ + shown_number(inventory::labelled_number(ls, "CPU(s):"@))
        + "\nNext: parse lspci/acpi/secureboot and emit full JSON.\n"@
}

/// The quick report of the doctor on what `lscpu` said.
pub fn doctor_report(lscpu: &str) -> (r: String)
    ensures
        r@ == doctor_text(lines::lines(lscpu@)),
{
    let cpu = inventory::parse_lscpu(lscpu);
    let mut s = "# PN52 Doctor Report\n\nCPU: ".to_string();
    if text::char_count(cpu.sku.as_str()) == 0 {
        s.append("unknown");
    } else {
        s.append(cpu.sku.as_str());
    }
    s.append("\nThreads: ");
    let ghost head = s@;
    match cpu.threads {
        Some(k) => {
            s.append("Some(");
            s.append(text::decimal_text(k as u64).as_str());
            s.append(")");
        },
        None => {
            s.append("None");
        },
    }
    assert(s@ =~= head + shown_number(cpu.threads));
    s.append("\nNext: parse lspci/acpi/secureboot and emit full JSON.\n");
    s
}

} // verus!
