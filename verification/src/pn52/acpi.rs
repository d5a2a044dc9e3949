//! ACPI tables named in a report.
use vstd::prelude::*;

use crate::lines;

verus! {

/// Whether an ACPI table is there.
#[derive(Debug, PartialEq, Eq)]
pub struct AcpiTableInfo {
    /// Signature of the table.
    pub signature: String,
    /// Whether the report names it.
    pub present: bool,
}

impl Clone for AcpiTableInfo {
    fn clone(&self) -> (r: Self)
        ensures
            r == *self,
    {
        AcpiTableInfo { signature: self.signature.clone(), present: self.present }
    }
}

/// The tables that are looked for, in the order of the result.
pub open spec fn known_signatures() -> Seq<Seq<char>> {
    seq!["RSDP"@, "XSDT"@, "FACP"@, "APIC"@, "MCFG"@, "HPET"@, "IVRS"@, "TPM2"@]
}

/// `info` says whether `report` names the table `signature`.
pub open spec fn describes(info: AcpiTableInfo, signature: Seq<char>, report: Seq<char>) -> bool {
    info.signature@ == signature && info.present == lines::has_text(report, signature)
}

/// Whether `report` names the table `signature`.
fn look_for(signature: &str, report: &str) -> (r: AcpiTableInfo)
    ensures
        describes(r, signature@, report@),
{
    AcpiTableInfo {
        signature: signature.to_string(),
        present: lines::contains_text(report, signature),
    }
}

/// For each known table, whether the report names it.
pub fn detect_table_signatures(text: &str) -> (r: Vec<AcpiTableInfo>)
    ensures
        r@.len() == known_signatures().len(),
        forall|i: int|
            0 <= i < r@.len() ==> describes(#[trigger] r@[i], known_signatures()[i], text@),
{
    let mut out: Vec<AcpiTableInfo> = Vec::new();
    out.push(look_for("RSDP", text));
    out.push(look_for("XSDT", text));
    out.push(look_for("FACP", text));
    out.push(look_for("APIC", text));
    out.push(look_for("MCFG", text));
    out.push(look_for("HPET", text));
    out.push(look_for("IVRS", text));
    out.push(look_for("TPM2", text));
    out
}

} // verus!
