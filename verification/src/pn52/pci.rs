//! PCI devices named in a report.
use vstd::prelude::*;

use crate::lines;
use crate::text;

verus! {

/// A PCI device.
#[derive(Debug, Clone, PartialEq, Eq)]
pub struct PciDevice {
    /// Bus, device and function.
    pub bdf: String,
    /// Class.
    pub class_name: String,
    /// Vendor and device ids.
    pub vendor_device: String,
    /// Driver, where one is bound.
    pub driver: Option<String>,
    /// IOMMU group, where there is one.
    pub iommu_group: Option<u32>,
}

/// The lines of a report, trimmed, without those that are empty then.
pub open spec fn kept_lines(ls: Seq<Seq<char>>) -> Seq<Seq<char>>
    decreases ls.len(),
{
    if ls.len() == 0 {
        Seq::empty()
    } else {
        let front = kept_lines(ls.drop_last());
        let line = lines::trim(ls.last());
        if line.len() == 0 {
            front
        } else {
            front.push(line)
        }
    }
}

/// The lines of the tree, trimmed; empty ones are left out.
pub fn parse_lspci_tree(text: &str) -> (r: Vec<String>)
    ensures
        text::views(r@) == kept_lines(lines::lines(text@)),
{
    let all = lines::split_lines(text);
    let ghost ls = text::views(all@);
    let mut out: Vec<String> = Vec::new();
    let mut i: usize = 0;
    assert(text::views(out@) =~= kept_lines(ls.take(0)));
    while i < all.len()
        invariant
            i <= all@.len(),
            ls == text::views(all@),
            text::views(out@) == kept_lines(ls.take(i as int)),
        decreases all@.len() - i,
    {
        let line = lines::trim_text(all[i].as_str());
        let ghost before = text::views(out@);
        assert(ls.take(i + 1).drop_last() =~= ls.take(i as int));
        assert(ls.take(i + 1).last() == all@[i as int]@);
        if text::char_count(line.as_str()) > 0 {
            out.push(line);
            assert(text::views(out@) =~= before.push(line@));
        }
        i = i + 1;
    }
    assert(ls.take(i as int) =~= ls);
    out
}

} // verus!
