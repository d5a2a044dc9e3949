//! Downgrade protection, on top of an already verified manifest.
//!
//! Two families of downgrade are rejected: replaying an older signed manifest
//! (its version is below the tenant's floor or below the device's monotonic
//! counter), and stripping the post-quantum leg (policy requires it, but the
//! manifest is classical-only or a hybrid keyslot lost its post-quantum
//! algorithm).
use vstd::prelude::*;

use crate::qrse::keyslot;
use crate::qrse::keyslot::KeyslotView;
use crate::qrse::manifest;
use crate::qrse::manifest::{ManifestView, VerifiedManifest};
use crate::text;

verus! {

/// Tenant-level downgrade floor.
#[derive(Debug, Clone, Copy, PartialEq, Eq, Structural)]
pub struct VersionFloor {
    /// The lowest acceptable `minimum_boot_manifest_version`.
    pub tenant_min_manifest_version: u64,
    /// Whether a post-quantum unlock path (hybrid keyslot) is required.
    pub require_pqc_signature: bool,
    /// Whether a fully classical-only manifest is tolerated all the same.
    pub allow_classical_only: bool,
}

impl VersionFloor {
    /// A strict floor: no classical-only, post-quantum required, at `min`.
    pub fn strict(min: u64) -> (r: Self)
        ensures
            r == (VersionFloor {
                tenant_min_manifest_version: min,
                require_pqc_signature: true,
                allow_classical_only: false,
            }),
    {
        VersionFloor {
            tenant_min_manifest_version: min,
            require_pqc_signature: true,
            allow_classical_only: false,
        }
    }
}

/// How a downgrade test ends. Only the first of these permits unlock.
#[derive(Debug, PartialEq, Eq)]
pub enum DowngradeVerdict {
    /// No downgrade detected.
    Accepted,
    /// The manifest version is below the tenant floor or the monotonic counter.
    RejectedStaleVersion { found: u64, floor: u64 },
    /// A post-quantum path is required but the manifest offers none.
    RejectedClassicalOnly,
    /// A hybrid keyslot's post-quantum leg has been stripped.
    RejectedSuiteDowngrade { from: String, to: String },
}

impl Clone for DowngradeVerdict {
    fn clone(&self) -> (r: Self)
        ensures
            r == *self,
    {
        match self {
            DowngradeVerdict::Accepted => DowngradeVerdict::Accepted,
            DowngradeVerdict::RejectedStaleVersion { found, floor } =>
                DowngradeVerdict::RejectedStaleVersion { found: *found, floor: *floor },
            DowngradeVerdict::RejectedClassicalOnly => DowngradeVerdict::RejectedClassicalOnly,
            DowngradeVerdict::RejectedSuiteDowngrade { from, to } =>
                DowngradeVerdict::RejectedSuiteDowngrade { from: from.clone(), to: to.clone() },
        }
    }
}

/// The content of a [`DowngradeVerdict`].
pub enum DowngradeVerdictView {
    Accepted,
    RejectedStaleVersion { found: u64, floor: u64 },
    RejectedClassicalOnly,
    RejectedSuiteDowngrade { from: Seq<char>, to: Seq<char> },
}

impl View for DowngradeVerdict {
    type V = DowngradeVerdictView;

    open spec fn view(&self) -> DowngradeVerdictView {
        match *self {
            DowngradeVerdict::Accepted => DowngradeVerdictView::Accepted,
            DowngradeVerdict::RejectedStaleVersion { found, floor } =>
                DowngradeVerdictView::RejectedStaleVersion { found, floor },
            DowngradeVerdict::RejectedClassicalOnly => DowngradeVerdictView::RejectedClassicalOnly,
            DowngradeVerdict::RejectedSuiteDowngrade { from, to } =>
                DowngradeVerdictView::RejectedSuiteDowngrade { from: from@, to: to@ },
        }
    }
}

impl DowngradeVerdictView {
    /// The finding as one line of text, with its texts in quotes.
    pub open spec fn shown(self) -> Seq<char> {
        match self {
            DowngradeVerdictView::Accepted => "Accepted"@,
            DowngradeVerdictView::RejectedStaleVersion { found, floor } =>
                "RejectedStaleVersion { found: "@ + text::decimal(found as nat) + ", floor: "@
                    + text::decimal(floor as nat) + " }"@,
            DowngradeVerdictView::RejectedClassicalOnly => "RejectedClassicalOnly"@,
            DowngradeVerdictView::RejectedSuiteDowngrade { from, to } =>
                "RejectedSuiteDowngrade { from: "@ + text::debug_form(from) + ", to: "@
                    + text::debug_form(to) + " }"@,
        }
    }
}

impl DowngradeVerdict {
    /// The finding as one line of text, with its texts in quotes.
    pub fn show(&self) -> (r: String)
        ensures
            r@ == self@.shown(),
    {
        match self {
            DowngradeVerdict::Accepted => "Accepted".to_string(),
            DowngradeVerdict::RejectedStaleVersion { found, floor } => {
                let mut out = "RejectedStaleVersion { found: ".to_string();
                out.append(text::decimal_text(*found).as_str());
                out.append(", floor: ");
                out.append(text::decimal_text(*floor).as_str());
                out.append(" }");
                out
            },
            DowngradeVerdict::RejectedClassicalOnly => "RejectedClassicalOnly".to_string(),
            DowngradeVerdict::RejectedSuiteDowngrade { from, to } => {
                let mut out = "RejectedSuiteDowngrade { from: ".to_string();
                out.append(text::debug_text(from.as_str()).as_str());
                out.append(", to: ");
                out.append(text::debug_text(to.as_str()).as_str());
                out.append(" }");
                out
            },
        }
    }

    /// Whether the verdict permits unlock.
    pub fn is_ok(&self) -> (r: bool)
        ensures
            r == (self@ == DowngradeVerdictView::Accepted),
    {
        matches!(self, DowngradeVerdict::Accepted)
    }
}

/// A hybrid slot with its post-quantum leg stripped.
pub open spec fn stripped(k: KeyslotView) -> bool {
    k.hybrid() && k.no_pqc_leg()
}

/// Slot `i` is the first stripped one.
pub open spec fn first_stripped(slots: Seq<KeyslotView>, i: int) -> bool {
    &&& 0 <= i < slots.len()
    &&& stripped(slots[i])
    &&& forall|j: int| 0 <= j < i ==> !stripped(#[trigger] slots[j])
}

/// Some slot is hybrid.
pub open spec fn any_hybrid(slots: Seq<KeyslotView>) -> bool {
    exists|i: int| 0 <= i < slots.len() && (#[trigger] slots[i]).hybrid()
}

/// The first downgrade found, in the order: tenant floor, monotonic counter,
/// stripped suite, no hybrid slot. The suite is only looked at where the floor
/// requires a post-quantum path and does not tolerate its absence.
pub open spec fn downgrade_of(
    m: ManifestView,
    floor: VersionFloor,
    monotonic_counter: u64,
) -> DowngradeVerdictView {
    let found = m.boot_policy.minimum_boot_manifest_version;
    if found < floor.tenant_min_manifest_version {
        DowngradeVerdictView::RejectedStaleVersion {
            found,
            floor: floor.tenant_min_manifest_version,
        }
    } else if found < monotonic_counter {
        DowngradeVerdictView::RejectedStaleVersion { found, floor: monotonic_counter }
    } else if floor.require_pqc_signature && !floor.allow_classical_only {
        if exists|i: int| first_stripped(m.keyslots, i) {
            let s = m.keyslots[choose|i: int| first_stripped(m.keyslots, i)].suite()->0;
            DowngradeVerdictView::RejectedSuiteDowngrade {
                from: s.classical@ + "+<pqc-required>+"@ + s.combiner@,
                to: s.wire(),
            }
        } else if !any_hybrid(m.keyslots) {
            DowngradeVerdictView::RejectedClassicalOnly
        } else {
            DowngradeVerdictView::Accepted
        }
    } else {
        DowngradeVerdictView::Accepted
    }
}

/// Check a verified manifest for downgrade against `floor` and the device's
/// `monotonic_counter` (the highest version previously accepted). Fails closed:
/// the first violation is returned.
pub fn check(
    manifest: &VerifiedManifest,
    floor: &VersionFloor,
    monotonic_counter: u64,
) -> (r: DowngradeVerdict)
    ensures
        r@ == downgrade_of(manifest.content(), *floor, monotonic_counter),
{
    let found: u64 = manifest.min_boot_manifest_version();
    if found < floor.tenant_min_manifest_version {
        return DowngradeVerdict::RejectedStaleVersion {
            found,
            floor: floor.tenant_min_manifest_version,
        };
    }
    if found < monotonic_counter {
        return DowngradeVerdict::RejectedStaleVersion { found, floor: monotonic_counter };
    }
    if floor.require_pqc_signature && !floor.allow_classical_only {
        let slots = manifest.keyslots();
        let ghost views = manifest.content().keyslots;
        let mut hybrid_seen = false;
        let mut i: usize = 0;
        while i < slots.len()
            invariant
                i <= slots@.len(),
                views == manifest.content().keyslots,
                views == keyslot::keyslots_view(slots@),
                found == manifest.content().boot_policy.minimum_boot_manifest_version,
                found >= floor.tenant_min_manifest_version,
                found >= monotonic_counter,
                floor.require_pqc_signature && !floor.allow_classical_only,
                forall|j: int| 0 <= j < i ==> !stripped(#[trigger] views[j]),
                hybrid_seen == exists|j: int| 0 <= j < i && (#[trigger] views[j]).hybrid(),
            decreases slots@.len() - i,
        {
            let slot = &slots[i];
            assert(views[i as int] == slot@);
            if slot.is_hybrid() && slot.classical_only() {
                if let Some(s) = slot.kem_suite() {
                    proof {
                        assert(first_stripped(views, i as int));
                        let c = choose|k: int| first_stripped(views, k);
                        assert(c == i);
                    }
                    let mut from = s.classical.clone();
                    from.append("+<pqc-required>+");
                    from.append(s.combiner.as_str());
                    return DowngradeVerdict::RejectedSuiteDowngrade { from, to: s.canonical() };
                }
            }
            let ghost before = hybrid_seen;
            if slot.is_hybrid() {
                hybrid_seen = true;
            }
            i = i + 1;
            proof {
                if before {
                    let k = choose|j: int| 0 <= j < i - 1 && (#[trigger] views[j]).hybrid();
                    assert(views[k].hybrid());
                }
            }
        }
        assert(hybrid_seen == any_hybrid(views));
        if !hybrid_seen {
            return DowngradeVerdict::RejectedClassicalOnly;
        }
    }
    DowngradeVerdict::Accepted
}

// ------------------------------------------------------------------- laws

/// What passes the check is no rollback: its version is at least the tenant's
/// floor and the device's counter.
pub proof fn passed_is_no_rollback(m: ManifestView, floor: VersionFloor, monotonic_counter: u64)
    requires
        downgrade_of(m, floor, monotonic_counter) == DowngradeVerdictView::Accepted,
    ensures
        m.boot_policy.minimum_boot_manifest_version >= floor.tenant_min_manifest_version,
        m.boot_policy.minimum_boot_manifest_version >= monotonic_counter,
{
}

/// Where a slot is stripped, one is the first.
pub proof fn least_stripped(slots: Seq<KeyslotView>, i: int) -> (k: int)
    requires
        0 <= i < slots.len(),
        stripped(slots[i]),
    ensures
        first_stripped(slots, k),
    decreases i,
{
    if forall|j: int| 0 <= j < i ==> !stripped(#[trigger] slots[j]) {
        i
    } else {
        let j = choose|j: int| 0 <= j < i && stripped(#[trigger] slots[j]);
        least_stripped(slots, j)
    }
}

/// Once a post-quantum path is required, what passes the check has one, and no
/// hybrid slot of it lost its post-quantum leg: a downgrade from hybrid to
/// classical-only is rejected.
pub proof fn passed_keeps_pqc_leg(m: ManifestView, floor: VersionFloor, monotonic_counter: u64)
    requires
        floor.require_pqc_signature,
        !floor.allow_classical_only,
        downgrade_of(m, floor, monotonic_counter) == DowngradeVerdictView::Accepted,
    ensures
        exists|i: int|
            0 <= i < m.keyslots.len() && (#[trigger] m.keyslots[i]).hybrid()
                && !m.keyslots[i].no_pqc_leg(),
        forall|i: int|
            0 <= i < m.keyslots.len() && (#[trigger] m.keyslots[i]).hybrid()
                ==> !m.keyslots[i].no_pqc_leg(),
{
    assert forall|i: int|
        0 <= i < m.keyslots.len() && (#[trigger] m.keyslots[i]).hybrid() implies
        !m.keyslots[i].no_pqc_leg() by {
        if stripped(m.keyslots[i]) {
            let k = least_stripped(m.keyslots, i);
            assert(first_stripped(m.keyslots, k));
        }
    }
    let i = choose|i: int| 0 <= i < m.keyslots.len() && (#[trigger] m.keyslots[i]).hybrid();
    assert(m.keyslots[i].hybrid());
}

/// How the check ends is decided by what was signed: manifests with the same
/// signed bytes end the same way, whatever else is exchanged around them.
pub proof fn outcome_is_signed(
    a: ManifestView,
    b: ManifestView,
    floor: VersionFloor,
    monotonic_counter: u64,
)
    requires
        a.signed_bytes() == b.signed_bytes(),
    ensures
        downgrade_of(a, floor, monotonic_counter) == downgrade_of(b, floor, monotonic_counter),
{
    manifest::signed_bytes_pin_sections(a, b);
    let (s, t) = (a.keyslots, b.keyslots);
    manifest::hierarchy_pins_slots(a, b);
    assert forall|i: int| 0 <= i < s.len() implies (#[trigger] s[i]).hybrid() == t[i].hybrid()
        && s[i].no_pqc_leg() == t[i].no_pqc_leg() by {
        keyslot::document_pins_slot(s[i], t[i]);
    }
    assert forall|i: int| first_stripped(s, i) <==> first_stripped(t, i) by {
        if first_stripped(s, i) {
            assert forall|j: int| 0 <= j < i implies !stripped(#[trigger] t[j]) by {
                assert(!stripped(s[j]));
            }
            assert(s[i].hybrid());
        }
        if first_stripped(t, i) {
            assert forall|j: int| 0 <= j < i implies !stripped(#[trigger] s[j]) by {
                assert(!stripped(t[j]));
            }
            assert(s[i].hybrid() == t[i].hybrid());
        }
    }
    if exists|i: int| first_stripped(s, i) {
        let i = choose|i: int| first_stripped(s, i);
        let j = choose|j: int| first_stripped(t, j);
        assert(first_stripped(s, i) && first_stripped(t, i) && first_stripped(t, j));
        assert(i == j) by {
            if i < j {
                assert(!stripped(t[i]));
            } else if j < i {
                assert(!stripped(t[j]));
            }
        }
        keyslot::document_pins_slot(s[i], t[i]);
    }
    if any_hybrid(s) {
        let i = choose|i: int| 0 <= i < s.len() && (#[trigger] s[i]).hybrid();
        assert(t[i].hybrid());
    }
    if any_hybrid(t) {
        let i = choose|i: int| 0 <= i < t.len() && (#[trigger] t[i]).hybrid();
        assert(s[i].hybrid());
    }
}

} // verus!
