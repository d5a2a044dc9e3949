//! The control plane itself: the registry and the commands on it.
use vstd::prelude::*;

use crate::attest::kms::{KmsPolicy, KmsSimulator};
use crate::attest::pcr::{PcrBank, PCR0, PCR11, PCR7};
use crate::capsule;
use crate::capsule::CapsuleManifest;
use crate::control::descriptor;
use crate::control::descriptor::{ControlCapsuleSpec, VmCapsule};
use crate::control::error::ControlError;
use crate::control::stage;
use crate::control::stage::{Verb, VmStage};
use crate::policy::document::{KeyReleasePolicy, PolicyDocument, StoragePolicy};
use crate::primitives;
use crate::text;
use crate::text_map;
use crate::text_map::TextMap;

verus! {

/// Hypervisor version that the local control plane reports.
pub const DEFAULT_HYPERVISOR_VERSION: u64 = 52;

/// Boot policy hash that the local key service pins.
pub const DEFAULT_BOOT_POLICY_HASH: &'static str = "sha384:bootpol-local";

/// Capsule hash that the local key service allows.
pub const DEFAULT_CAPSULE_HASH: &'static str = "sha384:capsule-local";

/// `"sha384:<hex>"` of `bytes`.
pub fn sha384_hex(bytes: &[u8]) -> (r: String)
    ensures
        r@ == primitives::sha384_hex_spec(bytes@),
        r@.len() == 103,
{
    primitives::sha384_hex(bytes)
}

/// What the runtime says of a snapshot.
#[derive(Debug, Clone, PartialEq, Eq)]
pub struct SnapshotReceipt {
    /// Receipt of the snapshot.
    pub receipt_id: String,
    /// Head of the receipt chain.
    pub chain_head: String,
}

/// What the runtime says of a destruction.
#[derive(Debug, Clone, PartialEq, Eq)]
pub struct DestroyReceipt {
    /// Memory ranges that were zeroised.
    pub zeroized_ranges: usize,
    /// Receipt of the destruction.
    pub receipt_id: String,
    /// Head of the receipt chain.
    pub chain_head: String,
}

/// What the runtime says of a launch.
#[derive(Debug, Clone, Copy, PartialEq, Eq, Structural)]
pub struct LaunchReport {
    /// Virtual processors.
    pub vcpus: usize,
    /// Devices.
    pub devices: usize,
}

/// The local control plane.
pub struct Control {
    /// The stage of each machine.
    registry: TextMap<VmStage>,
    /// Snapshots by name.
    snapshots: TextMap<SnapshotReceipt>,
    /// The policy in force.
    policy_doc: PolicyDocument,
    /// The key service.
    kms: KmsSimulator,
    /// Hypervisor version.
    hypervisor_version: u64,
}

/// Why a command is refused: there is no such machine, or it is not at a stage
/// for the command.
pub open spec fn refused(
    registry: stage::Registry,
    verb: Verb,
    id: Seq<char>,
    e: ControlError,
) -> bool {
    match text_map::lookup(registry, id) {
        None => e matches ControlError::NotFound(shown) && shown@ == id,
        Some(at) => e matches ControlError::InvalidState { action, id: shown, found, needed } && {
            &&& action@ == verb.name()
            &&& shown@ == id
            &&& found@ == at.name()
            &&& needed@ == verb.needs()
        },
    }
}

impl Control {
    /// The stage of each machine, by id.
    pub closed spec fn machines(&self) -> stage::Registry {
        self.registry@
    }

    /// The receipt of each snapshot, by name.
    pub closed spec fn kept(&self) -> Seq<(Seq<char>, SnapshotReceipt)> {
        self.snapshots@
    }

    /// The policy in force.
    pub closed spec fn policy(&self) -> PolicyDocument {
        self.policy_doc
    }

    /// The key service.
    pub closed spec fn service(&self) -> KmsSimulator {
        self.kms
    }

    /// The hypervisor version.
    pub closed spec fn version(&self) -> u64 {
        self.hypervisor_version
    }

    /// The stage of each machine, by id.
    pub fn registry(&self) -> (r: &TextMap<VmStage>)
        ensures
            r@ == self.machines(),
    {
        &self.registry
    }

    /// The receipt of each snapshot, by name.
    pub fn snapshots(&self) -> (r: &TextMap<SnapshotReceipt>)
        ensures
            r@ == self.kept(),
    {
        &self.snapshots
    }

    /// The policy in force.
    pub fn policy_doc(&self) -> (r: &PolicyDocument)
        ensures
            *r == self.policy(),
    {
        &self.policy_doc
    }

    /// The key service.
    pub fn kms(&self) -> (r: &KmsSimulator)
        ensures
            *r == self.service(),
    {
        &self.kms
    }

    /// The hypervisor version.
    pub fn hypervisor_version(&self) -> (r: u64)
        ensures
            r == self.version(),
    {
        self.hypervisor_version
    }

    /// Everything but the registry is as in `other`.
    pub open spec fn same_surroundings(self, other: Control) -> bool {
        &&& self.kept() == other.kept()
        &&& self.same_settings(other)
    }

    /// The policy, the key service and the version are as in `other`.
    pub open spec fn same_settings(self, other: Control) -> bool {
        &&& self.policy() == other.policy()
        &&& self.service() == other.service()
        &&& self.version() == other.version()
    }

    /// Nothing has changed, and the command is refused.
    pub open spec fn stayed(
        before: Control,
        after: Control,
        verb: Verb,
        id: Seq<char>,
        r: Result<String, ControlError>,
    ) -> bool {
        &&& after == before
        &&& r matches Err(e) && refused(before.machines(), verb, id, e)
    }

    /// The command went through: the machine is at its next stage, and `shown`
    /// is what the operator sees.
    pub open spec fn advanced(
        before: Control,
        after: Control,
        verb: Verb,
        id: Seq<char>,
        r: Result<String, ControlError>,
        shown: Seq<char>,
    ) -> bool {
        &&& after.machines() == text_map::put(before.machines(), id, verb.result())
        &&& after.same_settings(before)
        &&& r matches Ok(m) && m@ == shown
    }

    /// The runtime failed: the machine is unusable, for the reason given.
    pub open spec fn failed(
        before: Control,
        after: Control,
        id: Seq<char>,
        r: Result<String, ControlError>,
        reason: String,
    ) -> bool {
        &&& after.machines() == text_map::put(before.machines(), id, VmStage::Failed(reason))
        &&& after.same_surroundings(before)
        &&& r == Err::<String, ControlError>(ControlError::Vm(reason))
    }

    /// A control plane without machines.
    pub fn new(policy_doc: PolicyDocument, kms: KmsSimulator, hypervisor_version: u64) -> (r: Self)
        ensures
            r.machines() == Seq::<(Seq<char>, VmStage)>::empty(),
            r.kept() == Seq::<(Seq<char>, SnapshotReceipt)>::empty(),
            r.policy() == policy_doc,
            r.service() == kms,
            r.version() == hypervisor_version,
    {
        Control {
            registry: TextMap::new(),
            snapshots: TextMap::new(),
            policy_doc,
            kms,
            hypervisor_version,
        }
    }

    /// A self-contained control plane with the strict local policy and key
    /// service.
    pub fn new_local() -> (r: Self)
        ensures
            r.machines() == Seq::<(Seq<char>, VmStage)>::empty(),
            r.kept() == Seq::<(Seq<char>, SnapshotReceipt)>::empty(),
            Self::is_local_policy(r.policy()),
            Self::is_local_kms(r.service()),
            r.version() == DEFAULT_HYPERVISOR_VERSION,
    {
        Control::new(Self::default_policy_doc(), Self::default_kms(), DEFAULT_HYPERVISOR_VERSION)
    }

    /// `d` is the strict local policy.
    pub open spec fn is_local_policy(d: PolicyDocument) -> bool {
        &&& d.schema_version == 1
        &&& d.policy_id@ == "pol-hyperctl-local"@
        &&& d.minimum_hypervisor_version == 52
        &&& d.require_signed_manifest
        &&& d.require_measured_boot
        &&& !d.allow_device_passthrough
        &&& !d.allow_debug_console
        &&& d.network_default@ == "deny"@
        &&& d.storage.require_encryption
        &&& !d.storage.allow_read_write_base_image
        &&& d.key_release.mode@ == "remote_attested_kms"@
        &&& d.key_release.require_pcr_match_for_sensitive_vms
    }

    /// The strict, deny-by-default policy of [`Control::new_local`].
    pub fn default_policy_doc() -> (r: PolicyDocument)
        ensures
            Self::is_local_policy(r),
            r.acceptable(),
    {
        proof {
            reveal_strlit("remote_attested_kms");
            reveal_strlit("passphrase_only");
            reveal_strlit("tpm2_pcr_policy");
            reveal_strlit("tpm2_pin");
            reveal_strlit("fido2_hmac_secret");
            reveal_strlit("smartcard_pkcs11");
        }
        PolicyDocument {
            schema_version: 1,
            policy_id: "pol-hyperctl-local".to_string(),
            minimum_hypervisor_version: 52,
            require_signed_manifest: true,
            require_measured_boot: true,
            allow_device_passthrough: false,
            allow_debug_console: false,
            network_default: "deny".to_string(),
            storage: StoragePolicy {
                require_encryption: true,
                allow_read_write_base_image: false,
            },
            key_release: KeyReleasePolicy {
                mode: "remote_attested_kms".to_string(),
                require_pcr_match_for_sensitive_vms: true,
            },
        }
    }

    /// The registers that the local key service expects.
    pub open spec fn local_registers() -> Map<u8, Seq<char>> {
        Map::<u8, Seq<char>>::empty().insert(PCR0, "sha384:p0"@).insert(
            PCR7,
            "sha384:p7"@,
        ).insert(PCR11, "sha384:p11"@)
    }

    /// The registers that the local key service expects.
    pub fn default_pcrs() -> (r: PcrBank)
        ensures
            r@ == Self::local_registers(),
    {
        let mut p = PcrBank::new();
        p.set(PCR0, "sha384:p0");
        p.set(PCR7, "sha384:p7");
        p.set(PCR11, "sha384:p11");
        p
    }

    /// `k` is the local key service.
    pub open spec fn is_local_kms(k: KmsSimulator) -> bool {
        &&& k.policy.expected_pcrs@ == Self::local_registers()
        &&& k.policy.min_hypervisor_version == DEFAULT_HYPERVISOR_VERSION
        &&& text::views(k.policy.allowed_capsule_hashes@) == seq![DEFAULT_CAPSULE_HASH@]
        &&& k.policy.expected_boot_policy_hash@ == DEFAULT_BOOT_POLICY_HASH@
    }

    /// The key service of [`Control::new_local`].
    pub fn default_kms() -> (r: KmsSimulator)
        ensures
            Self::is_local_kms(r),
    {
        let mut allowed: Vec<String> = Vec::new();
        allowed.push(DEFAULT_CAPSULE_HASH.to_string());
        assert(text::views(allowed@) =~= seq![DEFAULT_CAPSULE_HASH@]);
        KmsSimulator::new(
            KmsPolicy {
                expected_pcrs: Self::default_pcrs(),
                min_hypervisor_version: DEFAULT_HYPERVISOR_VERSION,
                allowed_capsule_hashes: allowed,
                expected_boot_policy_hash: DEFAULT_BOOT_POLICY_HASH.to_string(),
            },
        )
    }

    // ------------------------------------------------------ open commands

    /// Whether a command is valid for a machine, and why not.
    pub fn check(&self, verb: Verb, id: &str) -> (r: Result<(), ControlError>)
        ensures
            match r {
                Ok(_) => stage::open_for(self.machines(), verb, id@),
                Err(e) => !stage::open_for(self.machines(), verb, id@) && refused(
                    self.machines(),
                    verb,
                    id@,
                    e,
                ),
            },
    {
        match self.registry.get(id) {
            None => Err(ControlError::NotFound(id.to_string())),
            Some(at) => {
                if verb.valid_at(at) {
                    Ok(())
                } else {
                    Err(
                        ControlError::InvalidState {
                            action: verb.as_str().to_string(),
                            id: id.to_string(),
                            found: at.state_name(),
                            needed: verb.needed().to_string(),
                        },
                    )
                }
            },
        }
    }

    /// Marks a machine unusable.
    fn fail(&mut self, id: &str, reason: String) -> (r: Result<String, ControlError>)
        ensures
            Self::failed(*old(self), *final(self), id@, r, reason),
    {
        self.registry.insert(id, VmStage::Failed(reason.clone()));
        Err(ControlError::Vm(reason))
    }

    // -------------------------------------------------------------- define

    /// What becomes of the runtime's answer to a definition.
    pub open spec fn defined(
        before: Control,
        after: Control,
        out: Result<String, String>,
        r: Result<String, ControlError>,
    ) -> bool {
        match out {
            Ok(id) => {
                &&& after.machines() == text_map::put(before.machines(), id@, VmStage::Defined)
                &&& after.same_surroundings(before)
                &&& r == Ok::<String, ControlError>(id)
            },
            Err(e) => after == before && r == Err::<String, ControlError>(ControlError::Vm(e)),
        }
    }

    /// Register a machine that the runtime has defined, under the id that it
    /// gave.
    pub fn settle_define(&mut self, out: Result<String, String>) -> (r: Result<
        String,
        ControlError,
    >)
        ensures
            Self::defined(*old(self), *final(self), out, r),
            r matches Ok(id) ==> stage::moves(old(self).machines(), final(self).machines(), id@),
    {
        match out {
            Ok(id) => {
                self.registry.insert(id.as_str(), VmStage::Defined);
                Ok(id)
            },
            Err(e) => Err(ControlError::Vm(e)),
        }
    }

    /// What becomes of a descriptor that was read as `parsed`.
    pub open spec fn defined_from<
        M: FnOnce(&[u8]) -> Result<CapsuleManifest, String>,
        D: FnOnce(VmCapsule) -> Result<String, String>,
    >(
        before: Control,
        after: Control,
        parsed: Result<ControlCapsuleSpec, String>,
        read_manifest: M,
        define: D,
        r: Result<String, ControlError>,
    ) -> bool {
        match parsed {
            Err(m) => after == before && r == Err::<String, ControlError>(ControlError::Json(m)),
            Ok(spec) => exists|capsule: Result<VmCapsule, ControlError>|
                {
                    &&& #[trigger] spec.assembled(before.version(), read_manifest, capsule)
                    &&& match capsule {
                        Err(e) => after == before && r == Err::<String, ControlError>(e),
                        Ok(c) => exists|out: Result<String, String>|
                            #[trigger] call_ensures(define, (c,), out) && Self::defined(
                                before,
                                after,
                                out,
                                r,
                            ),
                    }
                },
        }
    }

    /// Verify a capsule descriptor and have the runtime define it. Returns the
    /// machine's id.
    ///
    /// Fails closed: `define` is called only with a verified capsule, so an
    /// unsigned or untrusted manifest registers nothing.
    pub fn vm_define<
        S: FnOnce(&str) -> Result<ControlCapsuleSpec, String>,
        M: FnOnce(&[u8]) -> Result<CapsuleManifest, String>,
        D: FnOnce(VmCapsule) -> Result<String, String>,
    >(&mut self, capsule_json: &str, read_spec: S, read_manifest: M, define: D) -> (r: Result<
        String,
        ControlError,
    >)
        requires
            call_requires(read_spec, (capsule_json,)),
            forall|b: &[u8]| #[trigger] call_requires(read_manifest, (b,)),
            forall|c: VmCapsule| #[trigger] call_requires(define, (c,)),
        ensures
            exists|parsed: Result<ControlCapsuleSpec, String>|
                #[trigger] call_ensures(read_spec, (capsule_json,), parsed) && Self::defined_from(
                    *old(self),
                    *final(self),
                    parsed,
                    read_manifest,
                    define,
                    r,
                ),
            r is Err ==> *final(self) == *old(self),
    {
        let parsed = read_spec(capsule_json);
        let ghost was = parsed;
        let spec = match parsed {
            Ok(spec) => spec,
            Err(m) => {
                return Err(ControlError::Json(m));
            },
        };
        let assembled = spec.into_capsule(self.hypervisor_version, read_manifest);
        let ghost outcome = assembled;
        assert(spec.assembled(old(self).version(), read_manifest, outcome));
        match assembled {
            Err(e) => Err(e),
            Ok(c) => {
                let out = define(c);
                self.settle_define(out)
            },
        }
    }

    // -------------------------------------------------------------- verify

    /// What becomes of the runtime's answer to a verification.
    pub open spec fn verified(
        before: Control,
        after: Control,
        id: Seq<char>,
        out: Result<String, String>,
        r: Result<String, ControlError>,
    ) -> bool {
        match out {
            Ok(image) => after.kept() == before.kept() && Self::advanced(
                before,
                after,
                Verb::Verify,
                id,
                r,
                "verified "@ + id + ": image "@ + image@,
            ),
            Err(e) => Self::failed(before, after, id, r, e),
        }
    }

    /// Take the runtime's answer to a verification: the image hash, or why not.
    pub fn settle_verify(&mut self, id: &str, out: Result<String, String>) -> (r: Result<
        String,
        ControlError,
    >)
        requires
            stage::open_for(old(self).machines(), Verb::Verify, id@),
        ensures
            Self::verified(*old(self), *final(self), id@, out, r),
    {
        match out {
            Ok(image) => {
                self.registry.insert(id, VmStage::Verified);
                let mut m = "verified ".to_string();
                m.append(id);
                m.append(": image ");
                m.append(image.as_str());
                Ok(m)
            },
            Err(e) => self.fail(id, e),
        }
    }

    /// Verify a defined machine for launch. `run` is the runtime's
    /// verification; it is called only when the command is open.
    pub fn vm_verify<F: FnOnce(&str) -> Result<String, String>>(&mut self, id: &str, run: F) -> (r:
        Result<String, ControlError>)
        requires
            stage::open_for(old(self).machines(), Verb::Verify, id@) ==> call_requires(run, (id,)),
        ensures
            if stage::open_for(old(self).machines(), Verb::Verify, id@) {
                exists|out: Result<String, String>|
                    call_ensures(run, (id,), out) && Self::verified(
                        *old(self),
                        *final(self),
                        id@,
                        out,
                        r,
                    )
            } else {
                Self::stayed(*old(self), *final(self), Verb::Verify, id@, r)
            },
            stage::moves(old(self).machines(), final(self).machines(), id@),
    {
        match self.check(Verb::Verify, id) {
            Err(e) => Err(e),
            Ok(_) => {
                let out = run(id);
                proof {
                    step_by(old(self).machines(), Verb::Verify, id@);
                }
                self.settle_verify(id, out)
            },
        }
    }

    // -------------------------------------------------------------- launch

    /// What becomes of the runtime's answer to a launch.
    pub open spec fn launched(
        before: Control,
        after: Control,
        id: Seq<char>,
        out: Result<LaunchReport, String>,
        r: Result<String, ControlError>,
    ) -> bool {
        match out {
            Ok(report) => after.kept() == before.kept() && Self::advanced(
                before,
                after,
                Verb::Launch,
                id,
                r,
                "launched "@ + id + ": running ("@ + text::decimal(report.vcpus as nat)
                    + " vcpus, "@ + text::decimal(report.devices as nat) + " devices)"@,
            ),
            Err(e) => Self::failed(before, after, id, r, e),
        }
    }

    /// Take the runtime's answer to a launch.
    pub fn settle_launch(&mut self, id: &str, out: Result<LaunchReport, String>) -> (r: Result<
        String,
        ControlError,
    >)
        requires
            stage::open_for(old(self).machines(), Verb::Launch, id@),
        ensures
            Self::launched(*old(self), *final(self), id@, out, r),
    {
        match out {
            Ok(report) => {
                self.registry.insert(id, VmStage::Running);
                let mut m = "launched ".to_string();
                m.append(id);
                m.append(": running (");
                m.append(text::decimal_text(report.vcpus as u64).as_str());
                m.append(" vcpus, ");
                m.append(text::decimal_text(report.devices as u64).as_str());
                m.append(" devices)");
                Ok(m)
            },
            Err(e) => self.fail(id, e),
        }
    }

    /// What the four steps of a launch come to: each is taken only when the one
    /// before it went through, on what that one gave, and the first that fails
    /// decides.
    pub open spec fn driven<
        X,
        Y,
        Z,
        P: FnOnce(&str) -> Result<X, String>,
        U: FnOnce(X) -> Result<Y, String>,
        A: FnOnce(Y) -> Result<Z, String>,
        F: FnOnce(Z) -> Result<LaunchReport, String>,
    >(
        id: &str,
        prepare: P,
        unlock: U,
        attach: A,
        run: F,
        out: Result<LaunchReport, String>,
    ) -> bool {
        exists|prepared: Result<X, String>|
            {
                &&& #[trigger] call_ensures(prepare, (id,), prepared)
                &&& match prepared {
                    Err(e) => out == Err::<LaunchReport, String>(e),
                    Ok(x) => exists|unlocked: Result<Y, String>|
                        {
                            &&& #[trigger] call_ensures(unlock, (x,), unlocked)
                            &&& match unlocked {
                                Err(e) => out == Err::<LaunchReport, String>(e),
                                Ok(y) => exists|attached: Result<Z, String>|
                                    {
                                        &&& #[trigger] call_ensures(attach, (y,), attached)
                                        &&& match attached {
                                            Err(e) => out == Err::<LaunchReport, String>(e),
                                            Ok(z) => call_ensures(run, (z,), out),
                                        }
                                    },
                            }
                        },
                }
            }
    }

    /// Prepare, unlock, attach, run: in this order, and no further than the
    /// first step that fails.
    pub fn drive_to_running<
        X,
        Y,
        Z,
        P: FnOnce(&str) -> Result<X, String>,
        U: FnOnce(X) -> Result<Y, String>,
        A: FnOnce(Y) -> Result<Z, String>,
        F: FnOnce(Z) -> Result<LaunchReport, String>,
    >(id: &str, prepare: P, unlock: U, attach: A, run: F) -> (r: Result<LaunchReport, String>)
        requires
            call_requires(prepare, (id,)),
            forall|x: X| #[trigger] call_requires(unlock, (x,)),
            forall|y: Y| #[trigger] call_requires(attach, (y,)),
            forall|z: Z| #[trigger] call_requires(run, (z,)),
        ensures
            Self::driven(id, prepare, unlock, attach, run, r),
    {
        let prepared = match prepare(id) {
            Ok(x) => x,
            Err(e) => {
                return Err(e);
            },
        };
        let unlocked = match unlock(prepared) {
            Ok(y) => y,
            Err(e) => {
                return Err(e);
            },
        };
        let attached = match attach(unlocked) {
            Ok(z) => z,
            Err(e) => {
                return Err(e);
            },
        };
        run(attached)
    }

    /// Drive a verified machine all the way to running: the runtime prepares,
    /// unlocks, attaches and runs it. Any of these that fails marks the machine
    /// failed.
    pub fn vm_launch<
        X,
        Y,
        Z,
        P: FnOnce(&str) -> Result<X, String>,
        U: FnOnce(X) -> Result<Y, String>,
        A: FnOnce(Y) -> Result<Z, String>,
        F: FnOnce(Z) -> Result<LaunchReport, String>,
    >(&mut self, id: &str, prepare: P, unlock: U, attach: A, run: F) -> (r: Result<
        String,
        ControlError,
    >)
        requires
            stage::open_for(old(self).machines(), Verb::Launch, id@) ==> {
                &&& call_requires(prepare, (id,))
                &&& forall|x: X| #[trigger] call_requires(unlock, (x,))
                &&& forall|y: Y| #[trigger] call_requires(attach, (y,))
                &&& forall|z: Z| #[trigger] call_requires(run, (z,))
            },
        ensures
            if stage::open_for(old(self).machines(), Verb::Launch, id@) {
                exists|out: Result<LaunchReport, String>|
                    #[trigger] Self::driven(id, prepare, unlock, attach, run, out)
                        && Self::launched(*old(self), *final(self), id@, out, r)
            } else {
                Self::stayed(*old(self), *final(self), Verb::Launch, id@, r)
            },
            stage::moves(old(self).machines(), final(self).machines(), id@),
    {
        match self.check(Verb::Launch, id) {
            Err(e) => Err(e),
            Ok(_) => {
                let out = Self::drive_to_running(id, prepare, unlock, attach, run);
                proof {
                    step_by(old(self).machines(), Verb::Launch, id@);
                }
                self.settle_launch(id, out)
            },
        }
    }

    // --------------------------------------------------------------- pause

    /// What becomes of the runtime's answer to a pause.
    pub open spec fn paused(
        before: Control,
        after: Control,
        id: Seq<char>,
        out: Result<(), String>,
        r: Result<String, ControlError>,
    ) -> bool {
        match out {
            Ok(_) => after.kept() == before.kept() && Self::advanced(
                before,
                after,
                Verb::Pause,
                id,
                r,
                "paused "@ + id,
            ),
            Err(e) => Self::failed(before, after, id, r, e),
        }
    }

    /// Take the runtime's answer to a pause.
    pub fn settle_pause(&mut self, id: &str, out: Result<(), String>) -> (r: Result<
        String,
        ControlError,
    >)
        requires
            stage::open_for(old(self).machines(), Verb::Pause, id@),
        ensures
            Self::paused(*old(self), *final(self), id@, out, r),
    {
        match out {
            Ok(_) => {
                self.registry.insert(id, VmStage::Paused);
                Ok(text::joined("paused ", id))
            },
            Err(e) => self.fail(id, e),
        }
    }

    /// Pause a running machine.
    pub fn vm_pause<F: FnOnce(&str) -> Result<(), String>>(&mut self, id: &str, run: F) -> (r: Result<
        String,
        ControlError,
    >)
        requires
            stage::open_for(old(self).machines(), Verb::Pause, id@) ==> call_requires(run, (id,)),
        ensures
            if stage::open_for(old(self).machines(), Verb::Pause, id@) {
                exists|out: Result<(), String>|
                    call_ensures(run, (id,), out) && Self::paused(
                        *old(self),
                        *final(self),
                        id@,
                        out,
                        r,
                    )
            } else {
                Self::stayed(*old(self), *final(self), Verb::Pause, id@, r)
            },
            stage::moves(old(self).machines(), final(self).machines(), id@),
    {
        match self.check(Verb::Pause, id) {
            Err(e) => Err(e),
            Ok(_) => {
                let out = run(id);
                proof {
                    step_by(old(self).machines(), Verb::Pause, id@);
                }
                self.settle_pause(id, out)
            },
        }
    }

    // ------------------------------------------------------------ snapshot

    /// What becomes of the runtime's answer to a snapshot: the receipt is kept
    /// under its name, and the machine is consumed.
    pub open spec fn snapshotted(
        before: Control,
        after: Control,
        id: Seq<char>,
        name: Seq<char>,
        out: Result<SnapshotReceipt, String>,
        r: Result<String, ControlError>,
    ) -> bool {
        match out {
            Ok(receipt) => {
                &&& after.kept() == text_map::put(before.kept(), name, receipt)
                &&& Self::advanced(
                    before,
                    after,
                    Verb::Snapshot,
                    id,
                    r,
                    "snapshot `"@ + name + "` of "@ + id + ": receipt "@ + receipt.receipt_id@
                        + " @ "@ + receipt.chain_head@,
                )
            },
            Err(e) => Self::failed(before, after, id, r, e),
        }
    }

    /// Take the runtime's answer to a snapshot.
    pub fn settle_snapshot(
        &mut self,
        id: &str,
        name: &str,
        out: Result<SnapshotReceipt, String>,
    ) -> (r: Result<String, ControlError>)
        requires
            stage::open_for(old(self).machines(), Verb::Snapshot, id@),
        ensures
            Self::snapshotted(*old(self), *final(self), id@, name@, out, r),
    {
        match out {
            Ok(receipt) => {
                let mut m = "snapshot `".to_string();
                m.append(name);
                m.append("` of ");
                m.append(id);
                m.append(": receipt ");
                m.append(receipt.receipt_id.as_str());
                m.append(" @ ");
                m.append(receipt.chain_head.as_str());
                self.snapshots.insert(name, receipt);
                self.registry.insert(id, VmStage::Snapshotted);
                Ok(m)
            },
            Err(e) => self.fail(id, e),
        }
    }

    /// What becomes of a snapshot command on a machine that it is valid for: a
    /// running machine is paused first.
    pub open spec fn snapshot_taken<
        P: FnOnce(&str) -> Result<(), String>,
        F: FnOnce(&str) -> Result<SnapshotReceipt, String>,
    >(
        before: Control,
        after: Control,
        id: &str,
        name: Seq<char>,
        pause: P,
        run: F,
        r: Result<String, ControlError>,
    ) -> bool {
        if text_map::lookup(before.machines(), id@) == Some(VmStage::Running) {
            exists|p: Result<(), String>|
                {
                    &&& #[trigger] call_ensures(pause, (id,), p)
                    &&& match p {
                        Err(e) => Self::failed(before, after, id@, r, e),
                        Ok(_) => exists|out: Result<SnapshotReceipt, String>|
                            #[trigger] call_ensures(run, (id,), out) && Self::snapshotted(
                                before,
                                after,
                                id@,
                                name,
                                out,
                                r,
                            ),
                    }
                }
        } else {
            exists|out: Result<SnapshotReceipt, String>|
                #[trigger] call_ensures(run, (id,), out) && Self::snapshotted(
                    before,
                    after,
                    id@,
                    name,
                    out,
                    r,
                )
        }
    }

    /// Take a snapshot of a paused machine, or of a running one, which is
    /// paused first. The machine is consumed; the receipt is kept under `name`.
    pub fn vm_snapshot<
        P: FnOnce(&str) -> Result<(), String>,
        F: FnOnce(&str) -> Result<SnapshotReceipt, String>,
    >(&mut self, id: &str, name: &str, pause: P, run: F) -> (r: Result<String, ControlError>)
        requires
            stage::open_for(old(self).machines(), Verb::Snapshot, id@) ==> call_requires(pause, (id,))
                && call_requires(run, (id,)),
        ensures
            if stage::open_for(old(self).machines(), Verb::Snapshot, id@) {
                Self::snapshot_taken(*old(self), *final(self), id, name@, pause, run, r)
            } else {
                Self::stayed(*old(self), *final(self), Verb::Snapshot, id@, r)
            },
            stage::moves(old(self).machines(), final(self).machines(), id@),
    {
        if let Err(e) = self.check(Verb::Snapshot, id) {
            return Err(e);
        }
        proof {
            step_by(old(self).machines(), Verb::Snapshot, id@);
        }
        let running = match self.registry.get(id) {
            Some(VmStage::Running) => true,
            _ => false,
        };
        if running {
            match pause(id) {
                Ok(_) => {},
                Err(e) => {
                    return self.fail(id, e);
                },
            }
        }
        let out = run(id);
        self.settle_snapshot(id, name, out)
    }

    // ---------------------------------------------------------------- stop

    /// What becomes of the runtime's answer to a stop.
    pub open spec fn stopped(
        before: Control,
        after: Control,
        id: Seq<char>,
        out: Result<(), String>,
        r: Result<String, ControlError>,
    ) -> bool {
        match out {
            Ok(_) => after.kept() == before.kept() && Self::advanced(
                before,
                after,
                Verb::Stop,
                id,
                r,
                "stopped "@ + id,
            ),
            Err(e) => Self::failed(before, after, id, r, e),
        }
    }

    /// Take the runtime's answer to a stop.
    pub fn settle_stop(&mut self, id: &str, out: Result<(), String>) -> (r: Result<
        String,
        ControlError,
    >)
        requires
            stage::open_for(old(self).machines(), Verb::Stop, id@),
        ensures
            Self::stopped(*old(self), *final(self), id@, out, r),
    {
        match out {
            Ok(_) => {
                self.registry.insert(id, VmStage::Stopped);
                Ok(text::joined("stopped ", id))
            },
            Err(e) => self.fail(id, e),
        }
    }

    /// Stop a running machine.
    pub fn vm_stop<F: FnOnce(&str) -> Result<(), String>>(&mut self, id: &str, run: F) -> (r: Result<
        String,
        ControlError,
    >)
        requires
            stage::open_for(old(self).machines(), Verb::Stop, id@) ==> call_requires(run, (id,)),
        ensures
            if stage::open_for(old(self).machines(), Verb::Stop, id@) {
                exists|out: Result<(), String>|
                    call_ensures(run, (id,), out) && Self::stopped(
                        *old(self),
                        *final(self),
                        id@,
                        out,
                        r,
                    )
            } else {
                Self::stayed(*old(self), *final(self), Verb::Stop, id@, r)
            },
            stage::moves(old(self).machines(), final(self).machines(), id@),
    {
        match self.check(Verb::Stop, id) {
            Err(e) => Err(e),
            Ok(_) => {
                let out = run(id);
                proof {
                    step_by(old(self).machines(), Verb::Stop, id@);
                }
                self.settle_stop(id, out)
            },
        }
    }

    // ------------------------------------------------------------- destroy

    /// What becomes of the runtime's answer to a destruction.
    pub open spec fn destroyed(
        before: Control,
        after: Control,
        id: Seq<char>,
        out: Result<DestroyReceipt, String>,
        r: Result<String, ControlError>,
    ) -> bool {
        match out {
            Ok(receipt) => after.kept() == before.kept() && Self::advanced(
                before,
                after,
                Verb::Destroy,
                id,
                r,
                "destroyed "@ + id + ": zeroized "@ + text::decimal(receipt.zeroized_ranges as nat)
                    + " range(s), receipt "@ + receipt.receipt_id@ + " @ "@ + receipt.chain_head@,
            ),
            Err(e) => Self::failed(before, after, id, r, e),
        }
    }

    /// Take the runtime's answer to a destruction.
    pub fn settle_destroy(&mut self, id: &str, out: Result<DestroyReceipt, String>) -> (r: Result<
        String,
        ControlError,
    >)
        requires
            stage::open_for(old(self).machines(), Verb::Destroy, id@),
        ensures
            Self::destroyed(*old(self), *final(self), id@, out, r),
    {
        match out {
            Ok(receipt) => {
                self.registry.insert(id, VmStage::Destroyed);
                let mut m = "destroyed ".to_string();
                m.append(id);
                m.append(": zeroized ");
                m.append(text::decimal_text(receipt.zeroized_ranges as u64).as_str());
                m.append(" range(s), receipt ");
                m.append(receipt.receipt_id.as_str());
                m.append(" @ ");
                m.append(receipt.chain_head.as_str());
                Ok(m)
            },
            Err(e) => self.fail(id, e),
        }
    }

    /// Zeroise and release a stopped machine. `wipe` is a confirmation that has
    /// to be given: without it a stopped machine is kept.
    pub fn vm_destroy<F: FnOnce(&str) -> Result<DestroyReceipt, String>>(
        &mut self,
        id: &str,
        wipe: bool,
        run: F,
    ) -> (r: Result<String, ControlError>)
        requires
            wipe && stage::open_for(old(self).machines(), Verb::Destroy, id@) ==> call_requires(
                run,
                (id,),
            ),
        ensures
            if !stage::open_for(old(self).machines(), Verb::Destroy, id@) {
                Self::stayed(*old(self), *final(self), Verb::Destroy, id@, r)
            } else if !wipe {
                *final(self) == *old(self) && (r matches Err(ControlError::WipeRequired(shown))
                    && shown@ == id@)
            } else {
                exists|out: Result<DestroyReceipt, String>|
                    call_ensures(run, (id,), out) && Self::destroyed(
                        *old(self),
                        *final(self),
                        id@,
                        out,
                        r,
                    )
            },
            stage::moves(old(self).machines(), final(self).machines(), id@),
    {
        match self.check(Verb::Destroy, id) {
            Err(e) => Err(e),
            Ok(_) => {
                if !wipe {
                    return Err(ControlError::WipeRequired(id.to_string()));
                }
                let out = run(id);
                proof {
                    step_by(old(self).machines(), Verb::Destroy, id@);
                }
                self.settle_destroy(id, out)
            },
        }
    }
}

/// A command that is valid for a machine takes it one step, whether it goes
/// through or fails.
proof fn step_by(before: stage::Registry, verb: Verb, id: Seq<char>)
    requires
        stage::open_for(before, verb, id),
    ensures
        stage::moves(before, text_map::put(before, id, verb.result()), id),
        forall|reason: String|
            stage::moves(before, #[trigger] text_map::put(before, id, VmStage::Failed(reason)), id),
{
    assert(stage::step(text_map::lookup(before, id), verb.result()));
    assert forall|reason: String|
        stage::moves(
            before,
            #[trigger] text_map::put(before, id, VmStage::Failed(reason)),
            id,
        ) by {
        assert(stage::step(text_map::lookup(before, id), VmStage::Failed(reason)));
    }
}

// ------------------------------------------------------------------- laws

/// No machine is registered around an unsigned or untrusted capsule: where a
/// definition succeeds, the runtime was handed a capsule whose manifest one of
/// the allowed keys signed and whose boot policy the tenant accepts, and gave the
/// id that was registered.
pub proof fn registered_is_verified<
    M: FnOnce(&[u8]) -> Result<CapsuleManifest, String>,
    D: FnOnce(VmCapsule) -> Result<String, String>,
>(
    before: Control,
    after: Control,
    spec: ControlCapsuleSpec,
    read_manifest: M,
    define: D,
    r: Result<String, ControlError>,
)
    requires
        Control::defined_from(before, after, Ok(spec), read_manifest, define, r),
        r is Ok,
    ensures
        exists|c: VmCapsule, i: int|
            #![trigger capsule::trusted_at(c.manifest.contents().signatures@, spec.trusted(), i)]
            capsule::trusted_at(c.manifest.contents().signatures@, spec.trusted(), i)
                && !spec.below_floor(c.manifest.contents()) && call_ensures(
                define,
                (c,),
                Ok(r->Ok_0),
            ),
{
    let assembled = choose|assembled: Result<VmCapsule, ControlError>|
        {
            &&& #[trigger] spec.assembled(before.version(), read_manifest, assembled)
            &&& match assembled {
                Err(e) => after == before && r == Err::<String, ControlError>(e),
                Ok(c) => exists|out: Result<String, String>|
                    #[trigger] call_ensures(define, (c,), out) && Control::defined(
                        before,
                        after,
                        out,
                        r,
                    ),
            }
        };
    let c = assembled->Ok_0;
    assert(assembled is Ok);
    descriptor::assembled_is_verified(spec, before.version(), read_manifest, c);
    let i = choose|i: int|
        capsule::trusted_at(c.manifest.contents().signatures@, spec.trusted(), i);
    assert(capsule::trusted_at(c.manifest.contents().signatures@, spec.trusted(), i));
    let out = choose|out: Result<String, String>|
        #[trigger] call_ensures(define, (c,), out) && Control::defined(before, after, out, r);
    assert(out == Ok::<String, String>(r->Ok_0));
}

} // verus!
