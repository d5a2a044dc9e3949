//! The layered key hierarchy.
//!
//! Keys are layered so that compromise of any single layer is contained and so
//! that each layer rotates at its own cadence:
//!
//! ```text
//! Org root KEK
//!   └─ Tenant / Project KEK
//!        ├─ Device KEK
//!        │    ├─ TPM-sealed key      ─┐
//!        │    ├─ FIDO2 / user key     ├─ wrap → VMK → DEK → AES-256-XTS
//!        │    └─ Recovery key        ─┘ (threshold share)
//!        └─ Remote KMS KEK
//!             ├─ classical leg
//!             ├─ ML-KEM leg          ── hybrid → VMK → DEK → AES-256-XTS
//!             └─ hybrid (combined)
//! ```
use vstd::prelude::*;

use crate::qrse::keyslot::{Keyslot, KeyslotKind, KeyslotKindView};

verus! {

/// A class of key in the hierarchy.
#[derive(Debug, Clone, Copy, PartialEq, Eq, Structural)]
pub enum KeyClass {
    /// Data encryption key: protects bulk data.
    Dek,
    /// Volume master key: wraps the data keys of one volume.
    Vmk,
    /// Generic key-encryption key (org, tenant, device, remote roots).
    Kek,
    /// Per-device key-encryption key.
    DeviceKey,
    /// User-presence key (e.g. FIDO2).
    UserKey,
    /// Offline recovery key.
    RecoveryKey,
    /// Hardware-sealed key (TPM).
    HardwareSealedKey,
    /// Remote KMS key-encryption key.
    RemoteKmsKey,
    /// Key wrapped by a post-quantum leg.
    PqcWrappedKey,
    /// One share of a threshold recovery secret.
    ThresholdShare,
    /// Key used to sign audit receipts and manifests.
    AuditSigningKey,
}

/// How often a key is expected to rotate.
#[derive(Debug, Clone, Copy, PartialEq, Eq, Structural)]
pub enum RotationCadence {
    /// Only when explicitly requested.
    OnDemand,
    /// On every measured boot.
    PerBoot,
    Daily,
    Monthly,
    Quarterly,
    Annual,
    /// Immediately on suspected compromise.
    OnCompromise,
}

/// A node in the key hierarchy tree.
#[derive(Debug, PartialEq, Eq)]
pub struct KeyNode {
    pub id: String,
    pub class: KeyClass,
    pub rotation: RotationCadence,
    pub children: Vec<KeyNode>,
}

/// The content of a [`KeyNode`].
pub struct KeyNodeView {
    pub id: Seq<char>,
    pub class: KeyClass,
    pub rotation: RotationCadence,
    pub children: Seq<KeyNodeView>,
}

impl KeyNode {
    /// The node's content.
    pub open spec fn view(&self) -> KeyNodeView
        decreases self,
    {
        KeyNodeView {
            id: self.id@,
            class: self.class,
            rotation: self.rotation,
            children: Seq::new(
                self.children@.len(),
                |i: int|
                    if 0 <= i < self.children@.len() {
                        self.children@[i].view()
                    } else {
                        node(""@, KeyClass::Dek, RotationCadence::OnDemand, Seq::empty())
                    },
            ),
        }
    }

    /// A leaf node (no children).
    pub fn leaf(id: &str, class: KeyClass, rotation: RotationCadence) -> (r: Self)
        ensures
            r@ == node(id@, class, rotation, Seq::empty()),
    {
        let r = KeyNode { id: id.to_string(), class, rotation, children: Vec::new() };
        assert(r@.children =~= Seq::empty());
        r
    }

    /// Attach a child at the end.
    pub fn with_child(self, child: KeyNode) -> (r: Self)
        ensures
            r@ == (KeyNodeView { children: self@.children.push(child@), ..self@ }),
    {
        let ghost before = self@;
        let ghost added = child@;
        let mut r = self;
        r.children.push(child);
        assert(r@.children =~= before.children.push(added));
        r
    }
}

impl Clone for KeyNode {
    fn clone(&self) -> (r: Self)
        ensures
            r@ == self@,
        decreases self,
    {
        let mut children: Vec<KeyNode> = Vec::new();
        let mut i: usize = 0;
        while i < self.children.len()
            invariant
                i <= self.children@.len(),
                children@.len() == i,
                forall|k: int| 0 <= k < i ==> (#[trigger] children@[k])@ == self.children@[k]@,
            decreases self.children@.len() - i,
        {
            assert(decreases_to!(self => self.children@[i as int]));
            children.push(self.children[i].clone());
            i = i + 1;
        }
        let r = KeyNode {
            id: self.id.clone(),
            class: self.class,
            rotation: self.rotation,
            children,
        };
        assert(r@.children =~= self@.children);
        r
    }
}

/// A node with these contents.
pub open spec fn node(
    id: Seq<char>,
    class: KeyClass,
    rotation: RotationCadence,
    children: Seq<KeyNodeView>,
) -> KeyNodeView {
    KeyNodeView { id, class, rotation, children }
}

/// A volume master key over a data key.
pub open spec fn vmk_over_dek() -> KeyNodeView {
    node(
        "vmk"@,
        KeyClass::Vmk,
        RotationCadence::Quarterly,
        seq![node("dek"@, KeyClass::Dek, RotationCadence::PerBoot, Seq::empty())],
    )
}

/// The device branch: sealed, user and recovery paths to the master key.
pub open spec fn device_branch(device_id: Seq<char>) -> KeyNodeView {
    node(
        "device-kek:"@ + device_id,
        KeyClass::DeviceKey,
        RotationCadence::Annual,
        Seq::empty().push(
            node(
                "tpm-sealed"@,
                KeyClass::HardwareSealedKey,
                RotationCadence::PerBoot,
                seq![vmk_over_dek()],
            ),
        ).push(
            node(
                "fido2-user"@,
                KeyClass::UserKey,
                RotationCadence::OnDemand,
                seq![vmk_over_dek()],
            ),
        ).push(
            node(
                "recovery"@,
                KeyClass::RecoveryKey,
                RotationCadence::OnCompromise,
                seq![
                    node(
                        "share"@,
                        KeyClass::ThresholdShare,
                        RotationCadence::OnCompromise,
                        seq![vmk_over_dek()],
                    ),
                ],
            ),
        ),
    )
}

/// The remote branch: two legs and the hybrid that leads to the master key.
pub open spec fn remote_branch() -> KeyNodeView {
    node(
        "remote-kms-kek"@,
        KeyClass::RemoteKmsKey,
        RotationCadence::Monthly,
        Seq::empty().push(
            node("classical-leg"@, KeyClass::Kek, RotationCadence::Monthly, Seq::empty()),
        ).push(
            node("ml-kem-leg"@, KeyClass::PqcWrappedKey, RotationCadence::Monthly, Seq::empty()),
        ).push(
            node(
                "hybrid"@,
                KeyClass::PqcWrappedKey,
                RotationCadence::Monthly,
                seq![vmk_over_dek()],
            ),
        ),
    )
}

/// The standard tree.
pub open spec fn standard_tree(
    org_id: Seq<char>,
    tenant_id: Seq<char>,
    device_id: Seq<char>,
) -> KeyNodeView {
    node(
        "org-root-kek:"@ + org_id,
        KeyClass::Kek,
        RotationCadence::Annual,
        seq![
            node(
                "tenant-kek:"@ + tenant_id,
                KeyClass::Kek,
                RotationCadence::Quarterly,
                Seq::empty().push(device_branch(device_id)).push(remote_branch()),
            ),
        ],
    )
}

/// The full key hierarchy for a tenant and device, rooted at the org KEK.
#[derive(Debug, Clone, PartialEq, Eq)]
pub struct KeyHierarchy {
    pub root: KeyNode,
}

/// Builder for the standard hierarchy.
#[derive(Debug, Clone)]
pub struct KeyHierarchyBuilder {
    org_id: String,
    tenant_id: String,
    device_id: String,
}

fn vmk_dek() -> (r: KeyNode)
    ensures
        r@ == vmk_over_dek(),
{
    KeyNode::leaf("vmk", KeyClass::Vmk, RotationCadence::Quarterly).with_child(
        KeyNode::leaf("dek", KeyClass::Dek, RotationCadence::PerBoot),
    )
}

impl KeyHierarchyBuilder {
    /// The organisation's id.
    pub closed spec fn org_name(&self) -> Seq<char> {
        self.org_id@
    }

    /// The tenant's id.
    pub closed spec fn tenant_name(&self) -> Seq<char> {
        self.tenant_id@
    }

    /// The device's id.
    pub closed spec fn device_name(&self) -> Seq<char> {
        self.device_id@
    }

    /// Start a builder with placeholder ids.
    pub fn new() -> (r: Self)
        ensures
            r.org_name() == "org-root"@,
            r.tenant_name() == "tenant"@,
            r.device_name() == "device"@,
    {
        KeyHierarchyBuilder {
            org_id: "org-root".to_string(),
            tenant_id: "tenant".to_string(),
            device_id: "device".to_string(),
        }
    }

    /// The builder with another org id.
    pub fn org(self, id: &str) -> (r: Self)
        ensures
            r.org_name() == id@,
            r.tenant_name() == self.tenant_name(),
            r.device_name() == self.device_name(),
    {
        KeyHierarchyBuilder {
            org_id: id.to_string(),
            tenant_id: self.tenant_id,
            device_id: self.device_id,
        }
    }

    /// The builder with another tenant id.
    pub fn tenant(self, id: &str) -> (r: Self)
        ensures
            r.org_name() == self.org_name(),
            r.tenant_name() == id@,
            r.device_name() == self.device_name(),
    {
        KeyHierarchyBuilder {
            org_id: self.org_id,
            tenant_id: id.to_string(),
            device_id: self.device_id,
        }
    }

    /// The builder with another device id.
    pub fn device(self, id: &str) -> (r: Self)
        ensures
            r.org_name() == self.org_name(),
            r.tenant_name() == self.tenant_name(),
            r.device_name() == id@,
    {
        KeyHierarchyBuilder {
            org_id: self.org_id,
            tenant_id: self.tenant_id,
            device_id: id.to_string(),
        }
    }

    /// Build the standard hierarchy tree.
    pub fn build(self) -> (r: KeyHierarchy)
        ensures
            r.root@ == standard_tree(self.org_name(), self.tenant_name(), self.device_name()),
    {
        let mut device_name = "device-kek:".to_string();
        device_name.append(self.device_id.as_str());
        let device = KeyNode::leaf(
            device_name.as_str(),
            KeyClass::DeviceKey,
            RotationCadence::Annual,
        ).with_child(
            KeyNode::leaf(
                "tpm-sealed",
                KeyClass::HardwareSealedKey,
                RotationCadence::PerBoot,
            ).with_child(vmk_dek()),
        ).with_child(
            KeyNode::leaf("fido2-user", KeyClass::UserKey, RotationCadence::OnDemand).with_child(
                vmk_dek(),
            ),
        ).with_child(
            KeyNode::leaf(
                "recovery",
                KeyClass::RecoveryKey,
                RotationCadence::OnCompromise,
            ).with_child(
                KeyNode::leaf(
                    "share",
                    KeyClass::ThresholdShare,
                    RotationCadence::OnCompromise,
                ).with_child(vmk_dek()),
            ),
        );
        assert(device@ == device_branch(self.device_name()));
        let remote = KeyNode::leaf(
            "remote-kms-kek",
            KeyClass::RemoteKmsKey,
            RotationCadence::Monthly,
        ).with_child(
            KeyNode::leaf("classical-leg", KeyClass::Kek, RotationCadence::Monthly),
        ).with_child(
            KeyNode::leaf("ml-kem-leg", KeyClass::PqcWrappedKey, RotationCadence::Monthly),
        ).with_child(
            KeyNode::leaf("hybrid", KeyClass::PqcWrappedKey, RotationCadence::Monthly).with_child(
                vmk_dek(),
            ),
        );
        assert(remote@ == remote_branch());
        let mut tenant_name = "tenant-kek:".to_string();
        tenant_name.append(self.tenant_id.as_str());
        let tenant = KeyNode::leaf(
            tenant_name.as_str(),
            KeyClass::Kek,
            RotationCadence::Quarterly,
        ).with_child(device).with_child(remote);
        let mut root_name = "org-root-kek:".to_string();
        root_name.append(self.org_id.as_str());
        let root = KeyNode::leaf(
            root_name.as_str(),
            KeyClass::Kek,
            RotationCadence::Annual,
        ).with_child(tenant);
        KeyHierarchy { root }
    }
}

impl Default for KeyHierarchyBuilder {
    fn default() -> (r: Self)
        ensures
            r.org_name() == "org-root"@,
            r.tenant_name() == "tenant"@,
            r.device_name() == "device"@,
    {
        Self::new()
    }
}

/// The classes from the org root down to the data key, for a mechanism.
pub open spec fn wrapping_classes(kind: KeyslotKindView) -> Seq<KeyClass> {
    let top = Seq::empty().push(KeyClass::Kek).push(KeyClass::Kek);
    let path = match kind {
        KeyslotKindView::Argon2idPassphrase { .. } => top.push(KeyClass::DeviceKey).push(
            KeyClass::UserKey,
        ),
        KeyslotKindView::Tpm2Sealed { .. } => top.push(KeyClass::DeviceKey).push(
            KeyClass::HardwareSealedKey,
        ),
        KeyslotKindView::ThresholdRecovery { .. } => top.push(KeyClass::DeviceKey).push(
            KeyClass::RecoveryKey,
        ).push(KeyClass::ThresholdShare),
        KeyslotKindView::HybridRemoteKms { .. } => top.push(KeyClass::RemoteKmsKey).push(
            KeyClass::PqcWrappedKey,
        ),
    };
    path.push(KeyClass::Vmk).push(KeyClass::Dek)
}

/// The rotation cadence recommended for a class.
pub open spec fn cadence_of(class: KeyClass) -> RotationCadence {
    match class {
        KeyClass::Dek => RotationCadence::PerBoot,
        KeyClass::Vmk => RotationCadence::Quarterly,
        KeyClass::DeviceKey => RotationCadence::Annual,
        KeyClass::Kek => RotationCadence::Annual,
        KeyClass::UserKey => RotationCadence::OnDemand,
        KeyClass::RecoveryKey => RotationCadence::OnCompromise,
        KeyClass::HardwareSealedKey => RotationCadence::PerBoot,
        KeyClass::RemoteKmsKey => RotationCadence::Monthly,
        KeyClass::PqcWrappedKey => RotationCadence::Monthly,
        KeyClass::ThresholdShare => RotationCadence::OnCompromise,
        KeyClass::AuditSigningKey => RotationCadence::Quarterly,
    }
}

impl KeyHierarchy {
    /// Build the standard hierarchy with default ids.
    pub fn standard() -> (r: Self)
        ensures
            r.root@ == standard_tree("org-root"@, "tenant"@, "device"@),
    {
        KeyHierarchyBuilder::new().build()
    }

    /// The ordered chain of key classes that wrap a data key for `slot`, from
    /// the org root down to the data key. The branch taken depends on the
    /// keyslot mechanism.
    pub fn wrapping_chain(&self, slot: &Keyslot) -> (r: Vec<KeyClass>)
        ensures
            r@ == wrapping_classes(slot.kind@),
    {
        let mut chain: Vec<KeyClass> = Vec::new();
        chain.push(KeyClass::Kek);
        chain.push(KeyClass::Kek);
        match &slot.kind {
            KeyslotKind::Argon2idPassphrase { .. } => {
                chain.push(KeyClass::DeviceKey);
                chain.push(KeyClass::UserKey);
            },
            KeyslotKind::Tpm2Sealed { .. } => {
                chain.push(KeyClass::DeviceKey);
                chain.push(KeyClass::HardwareSealedKey);
            },
            KeyslotKind::ThresholdRecovery { .. } => {
                chain.push(KeyClass::DeviceKey);
                chain.push(KeyClass::RecoveryKey);
                chain.push(KeyClass::ThresholdShare);
            },
            KeyslotKind::HybridRemoteKms { .. } => {
                chain.push(KeyClass::RemoteKmsKey);
                chain.push(KeyClass::PqcWrappedKey);
            },
        }
        chain.push(KeyClass::Vmk);
        chain.push(KeyClass::Dek);
        chain
    }

    /// The rotation cadence recommended for a key class.
    pub fn rotation_for(class: KeyClass) -> (r: RotationCadence)
        ensures
            r == cadence_of(class),
    {
        match class {
            KeyClass::Dek => RotationCadence::PerBoot,
            KeyClass::Vmk => RotationCadence::Quarterly,
            KeyClass::DeviceKey => RotationCadence::Annual,
            KeyClass::Kek => RotationCadence::Annual,
            KeyClass::UserKey => RotationCadence::OnDemand,
            KeyClass::RecoveryKey => RotationCadence::OnCompromise,
            KeyClass::HardwareSealedKey => RotationCadence::PerBoot,
            KeyClass::RemoteKmsKey => RotationCadence::Monthly,
            KeyClass::PqcWrappedKey => RotationCadence::Monthly,
            KeyClass::ThresholdShare => RotationCadence::OnCompromise,
            KeyClass::AuditSigningKey => RotationCadence::Quarterly,
        }
    }
}

// ------------------------------------------------------------------- laws

/// The classes are those of the nodes on a way down from `n`, turning at each
/// node to the child that `turns` names.
pub open spec fn goes_down(n: KeyNodeView, turns: Seq<int>, classes: Seq<KeyClass>) -> bool
    decreases turns.len(),
{
    &&& classes.len() == turns.len() + 1
    &&& n.class == classes[0]
    &&& turns.len() > 0 ==> {
        &&& 0 <= turns[0] < n.children.len()
        &&& goes_down(n.children[turns[0]], turns.drop_first(), classes.drop_first())
    }
}

/// The turns from the root to the data key, for a mechanism.
pub open spec fn turns_for(kind: KeyslotKindView) -> Seq<int> {
    match kind {
        KeyslotKindView::Argon2idPassphrase { .. } => seq![0int, 0, 1, 0, 0],
        KeyslotKindView::Tpm2Sealed { .. } => seq![0int, 0, 0, 0, 0],
        KeyslotKindView::ThresholdRecovery { .. } => seq![0int, 0, 2, 0, 0, 0],
        KeyslotKindView::HybridRemoteKms { .. } => seq![0int, 1, 2, 0, 0],
    }
}

/// The wrapping chain of every mechanism is a way down the standard tree, from
/// its root to a data key that wraps nothing further.
pub proof fn wrapping_chain_is_in_tree(
    kind: KeyslotKindView,
    org_id: Seq<char>,
    tenant_id: Seq<char>,
    device_id: Seq<char>,
)
    ensures
        goes_down(
            standard_tree(org_id, tenant_id, device_id),
            turns_for(kind),
            wrapping_classes(kind),
        ),
        wrapping_classes(kind).last() == KeyClass::Dek,
        wrapping_classes(kind)[0] == KeyClass::Kek,
{
    reveal_with_fuel(goes_down, 7);
}

/// The node that `turns` lead to from `n`, where they stay in the tree.
pub open spec fn node_at(n: KeyNodeView, turns: Seq<int>) -> Option<KeyNodeView>
    decreases turns.len(),
{
    if turns.len() == 0 {
        Some(n)
    } else if 0 <= turns[0] < n.children.len() {
        node_at(n.children[turns[0]], turns.drop_first())
    } else {
        None
    }
}

/// The node and everything below it rotate as recommended for their classes.
spec fn in_cadence(n: KeyNodeView) -> bool
    decreases n,
{
    &&& n.rotation == cadence_of(n.class)
    &&& forall|i: int| 0 <= i < n.children.len() ==> in_cadence(#[trigger] n.children[i])
}

proof fn below_in_cadence(n: KeyNodeView, turns: Seq<int>)
    requires
        in_cadence(n),
        node_at(n, turns) is Some,
    ensures
        (node_at(n, turns)->0).rotation == cadence_of((node_at(n, turns)->0).class),
    decreases turns.len(),
{
    if turns.len() > 0 {
        assert(in_cadence(n.children[turns[0]]));
        below_in_cadence(n.children[turns[0]], turns.drop_first());
    }
}

proof fn vmk_in_cadence()
    ensures
        in_cadence(vmk_over_dek()),
{
    let dek = node("dek"@, KeyClass::Dek, RotationCadence::PerBoot, Seq::empty());
    assert(in_cadence(dek));
    assert(vmk_over_dek().children =~= seq![dek]);
}

proof fn device_in_cadence(device_id: Seq<char>)
    ensures
        in_cadence(device_branch(device_id)),
{
    vmk_in_cadence();
    let d = device_branch(device_id);
    let v = seq![vmk_over_dek()];
    assert(in_cadence(d.children[0]));
    assert(in_cadence(d.children[1]));
    let share = node("share"@, KeyClass::ThresholdShare, RotationCadence::OnCompromise, v);
    assert(in_cadence(share));
    assert(d.children[2].children =~= seq![share]);
    assert(in_cadence(d.children[2]));
    assert(d.children.len() == 3);
}

/// Every node of the standard tree rotates as recommended for its class, but for
/// the tenant key and the classical leg of the remote branch: these two are
/// generic key-encryption keys that rotate more often than the class does.
pub proof fn tree_keeps_cadence(
    org_id: Seq<char>,
    tenant_id: Seq<char>,
    device_id: Seq<char>,
    turns: Seq<int>,
)
    requires
        node_at(standard_tree(org_id, tenant_id, device_id), turns) is Some,
        turns != seq![0int],
        turns != seq![0int, 1, 0],
    ensures
        ({
            let n = node_at(standard_tree(org_id, tenant_id, device_id), turns)->0;
            n.rotation == cadence_of(n.class)
        }),
{
    reveal_with_fuel(node_at, 5);
    let root = standard_tree(org_id, tenant_id, device_id);
    if turns.len() > 0 {
        let tenant = root.children[0];
        let t1 = turns.drop_first();
        assert(turns[0] == 0);
        if t1.len() == 0 {
            assert(turns =~= seq![0int]);
        }
        let branch = tenant.children[t1[0]];
        let t2 = t1.drop_first();
        if t1[0] == 0 {
            device_in_cadence(device_id);
            below_in_cadence(branch, t2);
        } else {
            assert(t1[0] == 1);
            assert(branch == remote_branch());
            if t2.len() > 0 {
                let leg = branch.children[t2[0]];
                let t3 = t2.drop_first();
                if t2[0] == 0 {
                    if t3.len() == 0 {
                        assert(turns =~= seq![0int, 1, 0]);
                    }
                } else {
                    vmk_in_cadence();
                    assert(in_cadence(leg));
                    below_in_cadence(leg, t3);
                }
            }
        }
    }
}

/// Only the hybrid mechanism goes through a post-quantum wrapped key.
pub proof fn pqc_key_only_for_hybrid(kind: KeyslotKindView)
    ensures
        wrapping_classes(kind).contains(KeyClass::PqcWrappedKey) <==> kind is HybridRemoteKms,
{
    let w = wrapping_classes(kind);
    if kind is HybridRemoteKms {
        assert(w[3] == KeyClass::PqcWrappedKey);
    }
}

} // verus!
