//! What the inventory readers are for, stated over their calls.
use vstd::prelude::*;

use crate::lines;
use crate::pn52::acpi;
use crate::pn52::acpi::AcpiTableInfo;
use crate::pn52::inventory;
use crate::pn52::inventory::{Pn52CpuInfo, Pn52Inventory};
use crate::pn52::pci;
use crate::pn52::report;
use crate::pn52::security;
use crate::pn52::security::SecureBootState;
use crate::text;

verus! {

/// Each of the eight tables is reported, in order, as present exactly where the
/// text names it.
pub proof fn tables_are_reported_by_name(report: &str, r: Vec<AcpiTableInfo>, i: int, named: bool)
    requires
        call_ensures(acpi::detect_table_signatures, (report,), r),
        0 <= i < r@.len(),
        exists|name: &str|
            name@ == r@[i].signature@ && #[trigger] call_ensures(
                lines::contains_text,
                (report, name),
                named,
            ),
    ensures
        r@.len() == 8,
        r@[i].present == named,
        r@[0].signature@ == "RSDP"@ && r@[1].signature@ == "XSDT"@ && r@[2].signature@ == "FACP"@
            && r@[3].signature@ == "APIC"@ && r@[4].signature@ == "MCFG"@ && r@[5].signature@
            == "HPET"@ && r@[6].signature@ == "IVRS"@ && r@[7].signature@ == "TPM2"@,
{
    assert(acpi::describes(r@[i], acpi::known_signatures()[i], report@));
    assert(acpi::describes(r@[0], acpi::known_signatures()[0], report@));
    assert(acpi::describes(r@[1], acpi::known_signatures()[1], report@));
    assert(acpi::describes(r@[2], acpi::known_signatures()[2], report@));
    assert(acpi::describes(r@[3], acpi::known_signatures()[3], report@));
    assert(acpi::describes(r@[4], acpi::known_signatures()[4], report@));
    assert(acpi::describes(r@[5], acpi::known_signatures()[5], report@));
    assert(acpi::describes(r@[6], acpi::known_signatures()[6], report@));
    assert(acpi::describes(r@[7], acpi::known_signatures()[7], report@));
}

/// The state of Secure Boot is what the text says in so many words, whatever their
/// case; a text that says neither leaves it unknown.
pub proof fn state_is_what_the_text_says(
    report: &str,
    folded: String,
    enabled: &str,
    disabled: &str,
    says_enabled: bool,
    says_disabled: bool,
    r: SecureBootState,
)
    requires
        call_ensures(security::parse_mokutil_state, (report,), r),
        call_ensures(text::lower_text, (report,), folded),
        enabled@ == "secureboot enabled"@,
        disabled@ == "secureboot disabled"@,
        exists|f: &str|
            f@ == folded@ && #[trigger] call_ensures(
                lines::contains_text,
                (f, enabled),
                says_enabled,
            ),
        exists|f: &str|
            f@ == folded@ && #[trigger] call_ensures(
                lines::contains_text,
                (f, disabled),
                says_disabled,
            ),
    ensures
        r == SecureBootState::Enabled <==> says_enabled,
        r == SecureBootState::Disabled <==> says_disabled && !says_enabled,
        r == SecureBootState::Unknown <==> !says_enabled && !says_disabled,
{
}

/// The lines of the tree that show something, each without its outer spaces, in
/// their order.
pub proof fn tree_lines_are_the_full_ones(
    report: &str,
    r: Vec<String>,
    all: Vec<String>,
    k: int,
)
    requires
        call_ensures(pci::parse_lspci_tree, (report,), r),
        call_ensures(lines::split_lines, (report,), all),
        0 <= k < r@.len(),
    ensures
        r@[k]@.len() > 0,
        r@.len() <= all@.len(),
        exists|i: int|
            0 <= i < all@.len() && trims_to(#[trigger] all@[i]@, r@[k]@),
{
    let ls = lines::lines(report@);
    let kept = text::views(r@);
    assert(kept[k] == r@[k]@);
    assert(text::views(all@) == ls);
    let i = kept_comes_from(ls, k);
    assert(all@[i]@ == ls[i]);
    lines::laws::trimmed_core(ls[i]);
}

/// `core` is `s` without its outer spaces.
pub open spec fn trims_to(s: Seq<char>, core: Seq<char>) -> bool {
    exists|front: Seq<char>, back: Seq<char>| #[trigger] lines::laws::core_of(s, front, core, back)
}

proof fn kept_comes_from(ls: Seq<Seq<char>>, k: int) -> (i: int)
    requires
        0 <= k < pci::kept_lines(ls).len(),
    ensures
        0 <= i < ls.len(),
        pci::kept_lines(ls)[k] == lines::trim(ls[i]),
        lines::trim(ls[i]).len() > 0,
        pci::kept_lines(ls).len() <= ls.len(),
    decreases ls.len(),
{
    let front = pci::kept_lines(ls.drop_last());
    kept_is_no_longer(ls);
    if k < front.len() {
        let i = kept_comes_from(ls.drop_last(), k);
        assert(ls.drop_last()[i] == ls[i]);
        i
    } else {
        ls.len() - 1
    }
}

proof fn kept_is_no_longer(ls: Seq<Seq<char>>)
    ensures
        pci::kept_lines(ls).len() <= ls.len(),
    decreases ls.len(),
{
    if ls.len() > 0 {
        kept_is_no_longer(ls.drop_last());
    }
}

/// A line that shows something is kept.
pub proof fn full_lines_are_kept(report: &str, r: Vec<String>, all: Vec<String>, i: int, t: String)
    requires
        call_ensures(pci::parse_lspci_tree, (report,), r),
        call_ensures(lines::split_lines, (report,), all),
        0 <= i < all@.len(),
        exists|line: &str|
            line@ == all@[i]@ && #[trigger] call_ensures(lines::trim_text, (line,), t),
        t@.len() > 0,
    ensures
        exists|k: int| 0 <= k < r@.len() && (#[trigger] r@[k])@ == t@,
{
    let ls = lines::lines(report@);
    assert(text::views(all@)[i] == all@[i]@);
    let k = full_is_kept(ls, i);
    assert(text::views(r@)[k] == r@[k]@);
}

proof fn full_is_kept(ls: Seq<Seq<char>>, i: int) -> (k: int)
    requires
        0 <= i < ls.len(),
        lines::trim(ls[i]).len() > 0,
    ensures
        0 <= k < pci::kept_lines(ls).len(),
        pci::kept_lines(ls)[k] == lines::trim(ls[i]),
    decreases ls.len(),
{
    let front = pci::kept_lines(ls.drop_last());
    if i < ls.len() - 1 {
        assert(ls.drop_last()[i] == ls[i]);
        full_is_kept(ls.drop_last(), i)
    } else {
        front.len() as int
    }
}

/// The line `i` is the last of the report that begins with the label.
pub open spec fn last_with(all: Seq<String>, label: Seq<char>, i: int, rest: Seq<char>) -> bool {
    &&& 0 <= i < all.len()
    &&& all[i]@ == label + rest
    &&& forall|j: int, other: Seq<char>| i < j < all.len() ==> #[trigger] all[j]@ != #[trigger] (
    label + other)
}

/// The processor's name is what follows its label on the last line that has it,
/// without outer spaces, and its threads and cores are the numbers there.
pub proof fn processor_is_read_from_the_last_lines(
    report: &str,
    r: Pn52CpuInfo,
    all: Vec<String>,
    i: int,
    rest: Seq<char>,
)
    requires
        call_ensures(inventory::parse_lscpu, (report,), r),
        call_ensures(lines::split_lines, (report,), all),
    ensures
        last_with(all@, "Model name:"@, i, rest) ==> trims_to(rest, r.sku@),
        last_with(all@, "CPU(s):"@, i, rest) ==> r.threads == lines::number(lines::trim(rest)),
        last_with(all@, "Core(s) per socket:"@, i, rest) ==> r.cores == lines::number(
            lines::trim(rest),
        ),
        !r.svm && !r.invariant_tsc && r.family is None && r.model is None,
{
    let ls = lines::lines(report@);
    assert(text::views(all@) == ls);
    if last_with(all@, "Model name:"@, i, rest) {
        last_label_is_found(all@, "Model name:"@, i, rest);
        lines::laws::trimmed_core(rest);
    }
    if last_with(all@, "CPU(s):"@, i, rest) {
        last_label_is_found(all@, "CPU(s):"@, i, rest);
    }
    if last_with(all@, "Core(s) per socket:"@, i, rest) {
        last_label_is_found(all@, "Core(s) per socket:"@, i, rest);
    }
}

proof fn last_label_is_found(all: Seq<String>, label: Seq<char>, i: int, rest: Seq<char>)
    requires
        last_with(all, label, i, rest),
    ensures
        inventory::last_labelled(text::views(all), label) == Some(rest),
    decreases all.len(),
{
    let ls = text::views(all);
    let n = all.len() - 1;
    assert(ls.last() == all[n]@);
    assert(ls.drop_last() =~= text::views(all.drop_last()));
    if i == n {
        assert(ls.last().take(label.len() as int) =~= label);
        assert(ls.last().skip(label.len() as int) =~= rest);
    } else {
        if text::has_prefix(ls.last(), label) {
            let other = ls.last().skip(label.len() as int);
            assert(ls.last() =~= label + other);
            assert(all[n]@ == label + other);
        }
        let front = all.drop_last();
        assert(front[i] == all[i]);
        assert forall|j: int, other: Seq<char>| i < j < front.len() implies #[trigger] front[j]@
            != #[trigger] (label + other) by {
            assert(front[j] == all[j]);
        }
        last_label_is_found(front, label, i, rest);
    }
}

/// The piece stands somewhere in the text.
pub open spec fn shows(text: Seq<char>, piece: Seq<char>) -> bool {
    exists|a: Seq<char>, b: Seq<char>| text == #[trigger] (a + piece + b)
}

proof fn shown(text: Seq<char>, a: Seq<char>, piece: Seq<char>, b: Seq<char>)
    requires
        text =~= a + piece + b,
    ensures
        shows(text, piece),
{
    assert(text == a + piece + b);
}

proof fn nine_pieces(
    a: Seq<char>,
    b: Seq<char>,
    c: Seq<char>,
    d: Seq<char>,
    e: Seq<char>,
    f: Seq<char>,
    g: Seq<char>,
    h: Seq<char>,
    k: Seq<char>,
    text: Seq<char>,
)
    requires
        text == a + (b + c + d + e + f + g + h) + k,
    ensures
        shows(text, b + c + d),
        shows(text, d + e + f),
        shows(text, f + g + h),
        shows(text, k),
{
    shown(text, a, b + c + d, e + f + g + h + k);
    shown(text, a + b + c, d + e + f, g + h + k);
    shown(text, a + b + c + d + e, f + g + h, k);
    shown(text, a + (b + c + d + e + f + g + h), k, Seq::empty());
}

/// The report shows the processor, where it is known, with its two features, and
/// how many devices there are.
pub proof fn report_shows_the_inventory(inv: &Pn52Inventory, r: String, n: String)
    requires
        call_ensures(report::markdown_report, (inv,), r),
        inv.pci_devices@.len() <= u64::MAX,
        call_ensures(text::decimal_text, (inv.pci_devices@.len() as u64,), n),
    ensures
        inv.cpu matches Some(cpu) ==> {
            &&& shows(r@, "## CPU\n\n- sku: `"@ + cpu.sku@ + "`\n- svm: `"@)
            &&& shows(r@, "`\n- svm: `"@ + (if cpu.svm {
                "true"@
            } else {
                "false"@
            }) + "`\n- invariant_tsc: `"@)
            &&& shows(r@, "`\n- invariant_tsc: `"@ + (if cpu.invariant_tsc {
                "true"@
            } else {
                "false"@
            }) + "`\n\n"@)
        },
        shows(r@, "## PCI\n\n"@ + n@ + " devices parsed.\n"@),
{
    let head = "# PN52 inventory report\n\n"@ + "schema_version: "@ + text::decimal(
        inv.schema_version as nat,
    ) + "\n\n"@;
    let tail = "## PCI\n\n"@ + n@ + " devices parsed.\n"@;
    let none = Seq::<char>::empty();
    if let Some(cpu) = inv.cpu {
        let (p, q, t, u) = (
            "## CPU\n\n- sku: `"@,
            "`\n- svm: `"@,
            "`\n- invariant_tsc: `"@,
            "`\n\n"@,
        );
        let (s, i) = (report::truth(cpu.svm), report::truth(cpu.invariant_tsc));
        assert(r@ =~= head + (p + cpu.sku@ + q + s + t + i + u) + tail);
        nine_pieces(head, p, cpu.sku@, q, s, t, i, u, tail, r@);
    } else {
        shown(r@, head, tail, none);
    }
}

/// The doctor shows the processor that the report names, and how many threads it
/// has; a processor without a name is unknown.
pub proof fn doctor_shows_the_processor(report_text: &str, r: String, cpu: Pn52CpuInfo)
    requires
        call_ensures(report::doctor_report, (report_text,), r),
        call_ensures(inventory::parse_lscpu, (report_text,), cpu),
    ensures
        cpu.sku@.len() > 0 ==> shows(r@, "CPU: "@ + cpu.sku@ + "\nThreads: "@),
        cpu.sku@.len() == 0 ==> shows(r@, "CPU: "@ + "unknown"@ + "\nThreads: "@),
        cpu.threads is None ==> shows(r@, "\nThreads: "@ + "None"@ + "\nNext: "@),
        cpu.threads matches Some(k) ==> exists|n: Seq<char>|
            text::laws::numeral(n, 10) && #[trigger] text::laws::worth(n, 10) == k && shows(
                r@,
                "\nThreads: "@ + "Some("@ + n + ")"@ + "\nNext: "@,
            ),
{
    reveal_strlit("# PN52 Doctor Report\n\nCPU: ");
    reveal_strlit("CPU: ");
    reveal_strlit("\nNext: parse lspci/acpi/secureboot and emit full JSON.\n");
    reveal_strlit("\nNext: ");
    let (h, c) = ("# PN52 Doctor Report\n\nCPU: "@, "CPU: "@);
    let (m, e) = ("\nNext: parse lspci/acpi/secureboot and emit full JSON.\n"@, "\nNext: "@);
    assert(h.len() == 27 && c.len() == 5 && e.len() == 7);
    assert(h =~= h.take(22) + c);
    assert(m =~= e + m.skip(7));
    let name = if cpu.sku@.len() == 0 {
        "unknown"@
    } else {
        cpu.sku@
    };
    let t = "\nThreads: "@;
    let num = report::shown_number(cpu.threads);
    assert(r@ == h + name + t + num + m);
    shown(r@, h.take(22), c + name + t, num + m);
    if let Some(k) = cpu.threads {
        let n = text::decimal(k as nat);
        text::laws::decimal_reads_back(k as nat);
        shown(r@, h + name, t + "Some("@ + n + ")"@ + e, m.skip(7));
        assert(text::laws::worth(n, 10) == k);
    } else {
        shown(r@, h + name, t + "None"@ + e, m.skip(7));
    }
}

} // verus!
