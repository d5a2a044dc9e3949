//! The control plane, driven with a small in-memory runtime.
use std::collections::BTreeMap;

use hyper_slate::attest::kms::{KeyReleaseRequest, KmsSimulator};
use hyper_slate::attest::pcr::PcrBank;
use hyper_slate::capsule::{
    default_sig_status, CapsuleError, CapsuleManifest, CpuSpec, DeviceSpec, MemorySpec,
    NetworkSpec, Signature, StorageSpec,
};
use hyper_slate::control::descriptor::{
    BootSpec, ControlCapsuleSpec, DeviceAssignmentSpec, KeyReleasePlan, VirtualDiskSpec,
    VirtualNicSpec, VmCapsule, VmPolicy, CONTROL_CAPSULE_SCHEMA,
};
use hyper_slate::control::error::ControlError;
use hyper_slate::control::plane::{
    sha384_hex, Control, DestroyReceipt, LaunchReport, SnapshotReceipt, DEFAULT_BOOT_POLICY_HASH,
    DEFAULT_CAPSULE_HASH, DEFAULT_HYPERVISOR_VERSION,
};
use hyper_slate::control::stage::{Verb, VmStage};
use hyper_slate::control::views::CONTROL_POLICY_SCHEMA;
use hyper_slate::policy::engine::{
    DefaultPolicyEngine, DeviceAssignRequest, PolicyDecision, PolicyEngine, VmLaunchRequest,
};
use hyper_slate::receipts::chain::{ReceiptChain, ReceiptEvent};
use serde_json::{Number, Value};

fn text(v: &Value, key: &str) -> Result<String, String> {
    v[key].as_str().map(|s| s.to_string()).ok_or(format!("missing text `{key}`"))
}

fn truth(v: &Value, key: &str) -> Result<bool, String> {
    v[key].as_bool().ok_or(format!("missing truth value `{key}`"))
}

fn number(v: &Value, key: &str) -> Result<u64, String> {
    v[key].as_u64().ok_or(format!("missing number `{key}`"))
}

fn texts(v: &Value, key: &str) -> Result<Vec<String>, String> {
    let mut out = Vec::new();
    for s in v[key].as_array().ok_or(format!("missing list `{key}`"))? {
        out.push(s.as_str().ok_or("item is no text")?.to_string());
    }
    Ok(out)
}

fn read_capsule(bytes: &[u8]) -> Result<CapsuleManifest, String> {
    let v: Value = serde_json::from_slice(bytes).map_err(|e| e.to_string())?;
    let mut signatures = Vec::new();
    for s in v["signatures"].as_array().ok_or("missing signatures")? {
        signatures.push(Signature {
            alg: text(s, "alg")?,
            key_id: text(s, "key_id")?,
            status: match s.get("status") {
                None | Some(Value::Null) => default_sig_status(),
                Some(_) => text(s, "status")?,
            },
        });
    }
    Ok(CapsuleManifest {
        schema: text(&v, "schema")?,
        vm_id: text(&v, "vm_id")?,
        tenant_id: text(&v, "tenant_id")?,
        image_hash: text(&v, "image_hash")?,
        disk_hash: text(&v, "disk_hash")?,
        hypervisor_min_version: number(&v, "hypervisor_min_version")?,
        boot_policy_version: number(&v, "boot_policy_version")?,
        devices: DeviceSpec {
            passthrough: texts(&v["devices"], "passthrough")?,
            virtio: texts(&v["devices"], "virtio")?,
        },
        memory: MemorySpec {
            max_mb: number(&v["memory"], "max_mb")?,
            allow_balloon: truth(&v["memory"], "allow_balloon")?,
        },
        cpu: CpuSpec {
            vcpus: number(&v["cpu"], "vcpus")? as u32,
            cpuid_profile: text(&v["cpu"], "cpuid_profile")?,
        },
        network: NetworkSpec {
            mode: text(&v["network"], "mode")?,
            egress_policy: text(&v["network"], "egress_policy")?,
        },
        storage: StorageSpec {
            cipher: text(&v["storage"], "cipher")?,
            integrity: text(&v["storage"], "integrity")?,
            key_version: number(&v["storage"], "key_version")? as u32,
        },
        signatures,
    })
}

const CAPSULE_HASH: &str = DEFAULT_CAPSULE_HASH;
const BOOT_POLICY_HASH: &str = DEFAULT_BOOT_POLICY_HASH;

fn read_spec(s: &str) -> Result<ControlCapsuleSpec, String> {
    let v: Value = serde_json::from_str(s).map_err(|e| e.to_string())?;
    let mut storage = Vec::new();
    for d in v["storage"].as_array().unwrap_or(&Vec::new()) {
        storage.push(VirtualDiskSpec {
            disk_id: text(d, "disk_id")?,
            size_mb: number(d, "size_mb")?,
            read_only: truth(d, "read_only")?,
        });
    }
    let mut network = Vec::new();
    for n in v["network"].as_array().unwrap_or(&Vec::new()) {
        network.push(VirtualNicSpec { nic_id: text(n, "nic_id")?, mode: text(n, "mode")? });
    }
    let p = &v["policy"];
    let k = &v["key_plan"];
    let mut pcrs = PcrBank::new();
    for (i, d) in k["pcrs"].as_object().ok_or("missing pcrs")? {
        let register: u8 = i.parse().map_err(|_| "register number")?;
        pcrs.set(register, d.as_str().ok_or("digest")?);
    }
    Ok(ControlCapsuleSpec {
        schema: text(&v, "schema")?,
        capsule_id: text(&v, "capsule_id")?,
        manifest: serde_json::to_vec(&v["manifest"]).map_err(|e| e.to_string())?,
        allowed_key_ids: texts(&v, "allowed_key_ids")?,
        boot: BootSpec {
            firmware: text(&v["boot"], "firmware")?,
            cmdline: text(&v["boot"], "cmdline")?,
            boot_policy_version: number(&v["boot"], "boot_policy_version")?,
        },
        storage,
        network,
        devices: DeviceAssignmentSpec { passthrough: texts(&v["devices"], "passthrough")? },
        policy: VmPolicy {
            tenant_min_boot_policy: number(p, "tenant_min_boot_policy")?,
            memory_budget_mb: number(p, "memory_budget_mb")?,
            key_unwrap_authorized: truth(p, "key_unwrap_authorized")?,
            device_policy_ok: truth(p, "device_policy_ok")?,
            measured_boot: truth(p, "measured_boot")?,
            requests_debug_console: truth(p, "requests_debug_console")?,
        },
        key_plan: KeyReleasePlan {
            device_id: text(k, "device_id")?,
            capsule_hash: text(k, "capsule_hash")?,
            boot_policy_hash: text(k, "boot_policy_hash")?,
            pcrs,
            nonce: text(k, "nonce")?,
        },
    })
}

/// A runtime that keeps what it was given and writes receipts.
struct Runtime {
    chain: ReceiptChain,
    engine: DefaultPolicyEngine,
    kms: KmsSimulator,
    vms: BTreeMap<String, VmCapsule>,
}

impl Runtime {
    fn note(&mut self, event: ReceiptEvent, id: &str, decision: &str) -> String {
        let hash = sha384_hex(id.as_bytes());
        self.chain.append(event.as_str(), id, decision, "pol-test", &hash).receipt_id.clone()
    }

    fn define(&mut self, capsule: VmCapsule) -> Result<String, String> {
        let id = capsule.manifest.vm_id().to_string();
        self.note(ReceiptEvent::VmDefine, &id, "allow");
        self.vms.insert(id.clone(), capsule);
        Ok(id)
    }

    fn verify(&mut self, id: &str) -> Result<String, String> {
        let vm = &self.vms[id];
        let req = VmLaunchRequest {
            hypervisor_version: DEFAULT_HYPERVISOR_VERSION,
            manifest_signed: !vm.manifest.manifest().signatures.is_empty(),
            measured_boot: vm.policy.measured_boot,
            requests_debug_console: vm.policy.requests_debug_console,
        };
        let image = vm.manifest.manifest().image_hash.clone();
        match self.engine.evaluate_vm_launch(&req) {
            PolicyDecision::Allow { .. } => {
                self.note(ReceiptEvent::VmLaunch, id, "allow");
                Ok(image)
            }
            other => {
                self.note(ReceiptEvent::VmLaunch, id, "deny");
                Err(format!("{other:?}"))
            }
        }
    }

    fn prepare(&mut self, id: &str) -> Result<String, String> {
        Ok(id.to_string())
    }

    fn unlock(&mut self, id: String) -> Result<String, String> {
        let plan = &self.vms[&id].key_plan;
        let req = KeyReleaseRequest {
            request_type: "key_release".to_string(),
            device_id: plan.device_id.clone(),
            vm_id: id.clone(),
            capsule_hash: plan.capsule_hash.clone(),
            boot_policy_hash: plan.boot_policy_hash.clone(),
            pcrs: plan.pcrs.clone(),
            hypervisor_version: DEFAULT_HYPERVISOR_VERSION,
            nonce: plan.nonce.clone(),
        };
        let decision = self.kms.evaluate(&req, &mut self.chain);
        match decision.deny_reason() {
            Some(reason) => Err(reason.to_string()),
            None => Ok(id),
        }
    }

    fn attach(&mut self, id: String) -> Result<String, String> {
        let passthrough = self.vms[&id].devices.passthrough.clone();
        for device in passthrough {
            let d = self
                .engine
                .evaluate_device_assignment(&DeviceAssignRequest { passthrough: true, device });
            if !matches!(d, PolicyDecision::Allow { .. }) {
                self.note(ReceiptEvent::VmLaunch, &id, "deny");
                return Err(format!("{d:?}"));
            }
        }
        self.note(ReceiptEvent::VmLaunch, &id, "attached");
        Ok(id)
    }

    fn run(&mut self, id: String) -> Result<LaunchReport, String> {
        self.note(ReceiptEvent::VmLaunch, &id, "running");
        let vm = &self.vms[&id];
        Ok(LaunchReport {
            vcpus: vm.vcpus as usize,
            devices: vm.storage.len() + vm.network.len(),
        })
    }

    fn snapshot(&mut self, id: &str) -> Result<SnapshotReceipt, String> {
        let receipt_id = self.note(ReceiptEvent::Snapshot, id, "allow");
        Ok(SnapshotReceipt { receipt_id, chain_head: self.chain.head_hash().to_string() })
    }

    fn destroy(&mut self, id: &str) -> Result<DestroyReceipt, String> {
        self.vms.remove(id);
        let receipt_id = self.note(ReceiptEvent::Snapshot, id, "destroyed");
        Ok(DestroyReceipt {
            zeroized_ranges: 1,
            receipt_id,
            chain_head: self.chain.head_hash().to_string(),
        })
    }
}

/// A control plane with its runtime.
struct Plane {
    control: Control,
    runtime: Runtime,
}

impl Plane {
    fn vm_define(&mut self, json: &str) -> Result<String, ControlError> {
        let runtime = &mut self.runtime;
        self.control.vm_define(json, read_spec, read_capsule, |c: VmCapsule| runtime.define(c))
    }
    fn vm_verify(&mut self, id: &str) -> Result<String, ControlError> {
        let runtime = &mut self.runtime;
        self.control.vm_verify(id, |vm: &str| runtime.verify(vm))
    }
    fn vm_launch(&mut self, id: &str) -> Result<String, ControlError> {
        let runtime = std::cell::RefCell::new(&mut self.runtime);
        self.control.vm_launch(
            id,
            |vm: &str| runtime.borrow_mut().prepare(vm),
            |vm: String| runtime.borrow_mut().unlock(vm),
            |vm: String| runtime.borrow_mut().attach(vm),
            |vm: String| runtime.borrow_mut().run(vm),
        )
    }
    fn vm_pause(&mut self, id: &str) -> Result<String, ControlError> {
        let runtime = &mut self.runtime;
        self.control.vm_pause(id, |_: &str| {
            runtime.note(ReceiptEvent::VmLaunch, id, "paused");
            Ok(())
        })
    }
    fn vm_snapshot(&mut self, id: &str, name: &str) -> Result<String, ControlError> {
        let runtime = &mut self.runtime;
        self.control.vm_snapshot(id, name, |_: &str| Ok(()), |vm: &str| runtime.snapshot(vm))
    }
    fn vm_stop(&mut self, id: &str) -> Result<String, ControlError> {
        let runtime = &mut self.runtime;
        self.control.vm_stop(id, |_: &str| {
            runtime.note(ReceiptEvent::VmLaunch, id, "stopped");
            Ok(())
        })
    }
    fn vm_destroy(&mut self, id: &str, wipe: bool) -> Result<String, ControlError> {
        let runtime = &mut self.runtime;
        self.control.vm_destroy(id, wipe, |vm: &str| runtime.destroy(vm))
    }
    fn receipts_verify(&self, vm: Option<&str>) -> Result<String, ControlError> {
        self.control.receipts_verify(&self.runtime.chain, vm)
    }
    fn slate_doctor(&self) -> String {
        self.control.slate_doctor(&self.runtime.chain)
    }
}

fn control() -> Plane {
    Plane {
        control: Control::new_local(),
        runtime: Runtime {
            chain: ReceiptChain::new(),
            engine: DefaultPolicyEngine::new(Control::default_policy_doc()),
            kms: Control::default_kms(),
            vms: BTreeMap::new(),
        },
    }
}

fn spec_value(signed: bool, passthrough: Vec<&str>) -> Value {
    let sigs = if signed {
        r#"[{ "alg": "ecdsa-p384", "key_id": "key-good", "status": null }]"#
    } else {
        "[]"
    };
    let devices: Vec<String> = passthrough.iter().map(|d| format!("\"{d}\"")).collect();
    let json = format!(
        r#"{{
            "schema": "{CONTROL_CAPSULE_SCHEMA}",
            "capsule_id": "cap-1",
            "manifest": {{
                "schema": "chain.vm_capsule.v1",
                "vm_id": "vm-ctl-1",
                "tenant_id": "tenant-a",
                "image_hash": "sha384:image-aa",
                "disk_hash": "sha384:disk-bb",
                "hypervisor_min_version": 10,
                "boot_policy_version": 5,
                "devices": {{ "passthrough": [], "virtio": ["net0", "blk0"] }},
                "memory": {{ "max_mb": 256, "allow_balloon": false }},
                "cpu": {{ "vcpus": 2, "cpuid_profile": "milan-v1" }},
                "network": {{ "mode": "isolated", "egress_policy": "deny-all" }},
                "storage": {{ "cipher": "aes-256-xts", "integrity": "dm-integrity", "key_version": 3 }},
                "signatures": {sigs}
            }},
            "allowed_key_ids": ["key-good"],
            "boot": {{
                "firmware": "uefi-ovmf-v1",
                "cmdline": "console=ttyS0",
                "boot_policy_version": 5
            }},
            "storage": [{{ "disk_id": "blk0", "size_mb": 1024, "read_only": false }}],
            "network": [{{ "nic_id": "net0", "mode": "isolated" }}],
            "devices": {{ "passthrough": [{devices}] }},
            "policy": {{
                "tenant_min_boot_policy": 5,
                "memory_budget_mb": 4096,
                "key_unwrap_authorized": true,
                "device_policy_ok": true,
                "measured_boot": true,
                "requests_debug_console": false
            }},
            "key_plan": {{
                "device_id": "dev-blk0",
                "capsule_hash": "{CAPSULE_HASH}",
                "boot_policy_hash": "{BOOT_POLICY_HASH}",
                "pcrs": {{ "0": "sha384:p0", "7": "sha384:p7", "11": "sha384:p11" }},
                "nonce": "nonce-0001"
            }}
        }}"#,
        devices = devices.join(",")
    );
    serde_json::from_str(&json).expect("valid spec")
}

fn good_capsule_json() -> String {
    spec_value(true, vec![]).to_string()
}

#[test]
fn define_verify_launch_stop_happy_path() {
    let mut c = control();
    let id = c.vm_define(&good_capsule_json()).expect("define");
    assert_eq!(id, "vm-ctl-1");

    let v = c.vm_verify(&id).expect("verify");
    assert!(v.contains("image sha384:image-aa"));

    let l = c.vm_launch(&id).expect("launch");
    assert!(l.contains("running"));
    assert!(l.contains("2 vcpus"));

    let s = c.vm_stop(&id).expect("stop");
    assert!(s.contains("stopped"));

    // The shared audit chain stays valid end to end.
    assert!(c.receipts_verify(None).is_ok());
}

#[test]
fn pause_then_snapshot_then_records() {
    let mut c = control();
    let id = c.vm_define(&good_capsule_json()).unwrap();
    c.vm_verify(&id).unwrap();
    c.vm_launch(&id).unwrap();
    c.vm_pause(&id).expect("pause");
    let out = c.vm_snapshot(&id, "snap-a").expect("snapshot");
    assert!(out.contains("snap-a"));
    assert!(c.control.snapshots().get("snap-a").is_some());
    assert!(c.receipts_verify(Some(&id)).is_ok());
}

#[test]
fn stop_then_destroy_with_wipe() {
    let mut c = control();
    let id = c.vm_define(&good_capsule_json()).unwrap();
    c.vm_verify(&id).unwrap();
    c.vm_launch(&id).unwrap();
    c.vm_stop(&id).unwrap();
    let out = c.vm_destroy(&id, true).expect("destroy");
    assert!(out.contains("zeroized"));
    assert!(c.receipts_verify(None).is_ok());
}

#[test]
fn receipts_verify_ok_and_scoped() {
    let mut c = control();
    let id = c.vm_define(&good_capsule_json()).unwrap();
    c.vm_verify(&id).unwrap();
    c.vm_launch(&id).unwrap();

    let all = c.receipts_verify(None).expect("verify all");
    let v: Value = serde_json::from_str(&all).unwrap();
    assert_eq!(v["valid"], Value::Bool(true));
    assert!(v["total"].as_u64().unwrap() >= 5);

    let scoped = c.receipts_verify(Some(&id)).expect("verify scoped");
    let sv: Value = serde_json::from_str(&scoped).unwrap();
    assert_eq!(sv["vm"], Value::String(id));
    assert!(sv["vm_receipts"].as_array().unwrap().len() >= 5);
}

#[test]
fn unsigned_capsule_define_is_denied() {
    let mut c = control();
    let json = spec_value(false, vec![]).to_string();
    let err = c.vm_define(&json).unwrap_err();
    assert!(matches!(err, ControlError::Capsule(_)));
    // Nothing was registered.
    assert!(c.receipts_verify(None).is_ok());
    assert_eq!(c.control.registry().len(), 0);
    assert!(c.runtime.vms.is_empty());
}

#[test]
fn untrusted_key_define_is_denied() {
    let mut c = control();
    let mut spec = spec_value(true, vec![]);
    spec["allowed_key_ids"] = Value::Array(vec![Value::String("some-other-key".to_string())]);
    let err = c.vm_define(&spec.to_string()).unwrap_err();
    assert!(matches!(err, ControlError::Capsule(_)));
}

#[test]
fn bad_schema_is_denied() {
    let mut c = control();
    let mut spec = spec_value(true, vec![]);
    spec["schema"] = Value::String("chain.control.capsule.v2".to_string());
    let err = c.vm_define(&spec.to_string()).unwrap_err();
    assert!(matches!(err, ControlError::Schema { .. }));
}

#[test]
fn malformed_json_is_denied() {
    let mut c = control();
    let err = c.vm_define("{not json").unwrap_err();
    assert!(matches!(err, ControlError::Json(_)));
}

#[test]
fn launch_before_verify_is_rejected() {
    let mut c = control();
    let id = c.vm_define(&good_capsule_json()).unwrap();
    let err = c.vm_launch(&id).unwrap_err();
    assert!(matches!(err, ControlError::InvalidState { .. }));
}

#[test]
fn verb_on_unknown_vm_is_not_found() {
    let mut c = control();
    assert!(matches!(c.vm_verify("ghost").unwrap_err(), ControlError::NotFound(_)));
    assert!(matches!(c.vm_stop("ghost").unwrap_err(), ControlError::NotFound(_)));
}

#[test]
fn destroy_without_wipe_is_refused_and_vm_kept() {
    let mut c = control();
    let id = c.vm_define(&good_capsule_json()).unwrap();
    c.vm_verify(&id).unwrap();
    c.vm_launch(&id).unwrap();
    c.vm_stop(&id).unwrap();
    let err = c.vm_destroy(&id, false).unwrap_err();
    assert!(matches!(err, ControlError::WipeRequired(_)));
    // Still stopped and destroyable with the explicit flag.
    assert!(c.vm_destroy(&id, true).is_ok());
}

#[test]
fn launch_denied_when_passthrough_forbidden() {
    let mut c = control();
    let json = spec_value(true, vec!["0000:01:00.0"]).to_string();
    let id = c.vm_define(&json).unwrap();
    c.vm_verify(&id).unwrap();
    // attach gate denies forbidden passthrough -> VM marked Failed.
    let err = c.vm_launch(&id).unwrap_err();
    assert!(matches!(err, ControlError::Vm(_)));
    // The deny is audited and the chain remains valid.
    assert!(c.receipts_verify(None).is_ok());
}

#[test]
fn verify_denied_when_measured_boot_missing() {
    let mut c = control();
    let mut spec = spec_value(true, vec![]);
    spec["policy"]["measured_boot"] = Value::Bool(false);
    let id = c.vm_define(&spec.to_string()).unwrap();
    let err = c.vm_verify(&id).unwrap_err();
    assert!(matches!(err, ControlError::Vm(_)));
    assert!(c.receipts_verify(None).is_ok());
}

#[test]
fn policy_inspect_is_valid_json() {
    let c = control();
    let s = c.control.policy_inspect();
    let v: Value = serde_json::from_str(&s).expect("valid json");
    assert_eq!(v["schema"], Value::String(CONTROL_POLICY_SCHEMA.to_string()));
    assert_eq!(v["deny_by_default"], Value::Bool(true));
    assert_eq!(v["policy"]["policy_id"], Value::String("pol-hyperctl-local".to_string()));
}

#[test]
fn slate_doctor_is_valid_json_and_tracks_vms() {
    let mut c = control();
    let before: Value = serde_json::from_str(&c.slate_doctor()).expect("valid json");
    assert_eq!(before["vm_count"], Value::Number(Number::from(0u32)));
    assert_eq!(before["status"], Value::String("ok".to_string()));

    let id = c.vm_define(&good_capsule_json()).unwrap();
    c.vm_verify(&id).unwrap();
    let after: Value = serde_json::from_str(&c.slate_doctor()).expect("valid json");
    assert_eq!(after["vm_count"], Value::Number(Number::from(1u32)));
    assert_eq!(after["vms"][0]["state"], Value::String("verified".to_string()));
}

#[test]
fn ids_are_deterministic_across_runs() {
    let mut a = control();
    let mut b = control();
    let ida = a.vm_define(&good_capsule_json()).unwrap();
    let idb = b.vm_define(&good_capsule_json()).unwrap();
    assert_eq!(ida, idb);
}

#[test]
fn views_are_what_serde_json_writes() {
    // The documents hold their members in alphabetical order, as the reference map does.
    let mut c = control();
    let id = c.vm_define(&good_capsule_json()).unwrap();
    for shown in [
        c.slate_doctor(),
        c.control.policy_inspect(),
        c.receipts_verify(None).unwrap(),
        c.receipts_verify(Some(&id)).unwrap(),
        c.receipts_verify(Some("ghost")).unwrap(),
    ] {
        let v: Value = serde_json::from_str(&shown).unwrap();
        assert_eq!(serde_json::to_string_pretty(&v).unwrap(), shown);
    }
}

#[test]
fn failed_machine_is_unusable_and_says_why() {
    let mut c = control();
    let mut spec = spec_value(true, vec![]);
    spec["policy"]["measured_boot"] = Value::Bool(false);
    let id = c.vm_define(&spec.to_string()).unwrap();
    let err = c.vm_verify(&id).unwrap_err();
    let why = match &err {
        ControlError::Vm(m) => m.clone(),
        other => panic!("unexpected {other:?}"),
    };
    assert_eq!(err.message(), format!("lifecycle denied: {why}"));
    assert_eq!(c.control.registry().get(&id), Some(&VmStage::Failed(why.clone())));
    let err = c.vm_launch(&id).unwrap_err();
    assert_eq!(
        err.message(),
        format!("invalid state for `launch` on `{id}`: vm is `failed: {why}`, need `verified`")
    );
}

/// Launches the machine `a` with every step going through.
fn launch_a(c: &mut Control, report: LaunchReport) -> Result<String, ControlError> {
    c.vm_launch("a", |_: &str| Ok(()), |_: ()| Ok(()), |_: ()| Ok(()), |_: ()| Ok(report))
}

/// Launches the machine `a`, each step noting itself, and the step `stuck`
/// failing.
fn launch_until(c: &mut Control, stuck: &str, seen: &std::cell::RefCell<Vec<String>>) -> Result<String, ControlError> {
    let step = |name: &str, got: String| {
        seen.borrow_mut().push(format!("{name} {got}"));
        if name == stuck {
            Err(format!("{name} failed"))
        } else {
            Ok(name.to_string())
        }
    };
    c.vm_launch(
        "a",
        |vm: &str| step("prepare", vm.to_string()),
        |x: String| step("unlock", x),
        |x: String| step("attach", x),
        |x: String| step("run", x).map(|_| LaunchReport { vcpus: 1, devices: 2 }),
    )
}

#[test]
fn launch_takes_its_steps_in_order() {
    let all = ["prepare a", "unlock prepare", "attach unlock", "run attach"];
    for (i, stuck) in ["prepare", "unlock", "attach", "run"].iter().enumerate() {
        let mut c = Control::new_local();
        c.settle_define(Ok("a".to_string())).unwrap();
        c.vm_verify("a", |_: &str| Ok("img".to_string())).unwrap();
        let seen = std::cell::RefCell::new(Vec::new());
        let err = launch_until(&mut c, stuck, &seen).unwrap_err();
        assert_eq!(err.message(), format!("lifecycle denied: {stuck} failed"));
        assert_eq!(seen.into_inner(), all[..=i].to_vec());
        assert_eq!(c.registry().get("a"), Some(&VmStage::Failed(format!("{stuck} failed"))));
    }
    let mut c = Control::new_local();
    c.settle_define(Ok("a".to_string())).unwrap();
    let seen = std::cell::RefCell::new(Vec::new());
    assert!(launch_until(&mut c, "none", &seen).is_err());
    assert!(seen.borrow().is_empty());
    c.vm_verify("a", |_: &str| Ok("img".to_string())).unwrap();
    assert_eq!(launch_until(&mut c, "none", &seen).unwrap(), "launched a: running (1 vcpus, 2 devices)");
    assert_eq!(seen.into_inner(), all.to_vec());
}

#[test]
fn runtime_is_not_called_when_the_gate_is_shut() {
    let mut c = Control::new_local();
    assert!(c.vm_verify("x", |_: &str| panic!("must not run")).is_err());
    assert!(c.vm_destroy("x", true, |_: &str| panic!("must not run")).is_err());
    assert!(c.vm_snapshot("x", "n", |_: &str| panic!("must not run"), |_: &str| panic!("must not run")).is_err());
    assert_eq!(c.registry().len(), 0);
    assert!(c.check(Verb::Stop, "x").is_err());
}

#[test]
fn running_machine_is_paused_before_a_snapshot() {
    let mut c = Control::new_local();
    c.settle_define(Ok("a".to_string())).unwrap();
    c.vm_verify("a", |_: &str| Ok("img".to_string())).unwrap();
    assert_eq!(
        launch_a(&mut c, LaunchReport { vcpus: 3, devices: 4 }).unwrap(),
        "launched a: running (3 vcpus, 4 devices)"
    );
    let mut paused = false;
    let shown = c
        .vm_snapshot(
            "a",
            "s",
            |_: &str| {
                paused = true;
                Ok(())
            },
            |_: &str| {
                Ok(SnapshotReceipt { receipt_id: "r".to_string(), chain_head: "h".to_string() })
            },
        )
        .unwrap();
    assert!(paused);
    assert_eq!(shown, "snapshot `s` of a: receipt r @ h");
    assert_eq!(c.registry().get("a"), Some(&VmStage::Snapshotted));
    // A snapshot is terminal.
    let err = c.vm_stop("a", |_: &str| Ok(())).unwrap_err();
    assert_eq!(
        err.message(),
        "invalid state for `stop` on `a`: vm is `snapshotted`, need `running`"
    );
}

#[test]
fn pause_that_fails_marks_the_machine() {
    let mut c = Control::new_local();
    c.settle_define(Ok("a".to_string())).unwrap();
    c.vm_verify("a", |_: &str| Ok("img".to_string())).unwrap();
    launch_a(&mut c, LaunchReport { vcpus: 1, devices: 0 }).unwrap();
    let err = c
        .vm_snapshot("a", "s", |_: &str| Err("stuck".to_string()), |_: &str| panic!("must not run"))
        .unwrap_err();
    assert_eq!(err.message(), "lifecycle denied: stuck");
    assert_eq!(c.registry().get("a"), Some(&VmStage::Failed("stuck".to_string())));
    assert_eq!(c.snapshots().len(), 0);
}

#[test]
fn destroyed_machine_shows_its_receipt() {
    let mut c = Control::new_local();
    c.settle_define(Ok("a".to_string())).unwrap();
    c.vm_verify("a", |_: &str| Ok("img".to_string())).unwrap();
    launch_a(&mut c, LaunchReport { vcpus: 1, devices: 0 }).unwrap();
    assert_eq!(c.vm_stop("a", |_: &str| Ok(())).unwrap(), "stopped a");
    assert_eq!(
        c.vm_destroy("a", false, |_: &str| panic!("must not run")).unwrap_err().message(),
        "destroy refused for `a`: pass --wipe to confirm zeroization"
    );
    let shown = c
        .vm_destroy("a", true, |_: &str| {
            Ok(DestroyReceipt {
                zeroized_ranges: 2,
                receipt_id: "r".to_string(),
                chain_head: "h".to_string(),
            })
        })
        .unwrap();
    assert_eq!(shown, "destroyed a: zeroized 2 range(s), receipt r @ h");
    assert_eq!(c.registry().get("a"), Some(&VmStage::Destroyed));
}

#[test]
fn broken_chain_is_reported() {
    let mut c = control();
    let id = c.vm_define(&good_capsule_json()).unwrap();
    let (genesis, mut receipts) = c.runtime.chain.clone().into_parts();
    receipts[0].decision = "tampered".to_string();
    c.runtime.chain = ReceiptChain::from_parts(genesis, receipts);
    let err = c.receipts_verify(Some(&id)).unwrap_err();
    assert!(matches!(err, ControlError::Receipt(_)));
    assert!(err.message().starts_with("receipt chain verification failed: "));
    let v: Value = serde_json::from_str(&c.slate_doctor()).unwrap();
    assert_eq!(v["status"], Value::String("degraded".to_string()));
    assert_eq!(v["receipt_chain_valid"], Value::Bool(false));
}

#[test]
fn define_errors_show_what_is_wrong() {
    let mut c = control();
    let mut spec = spec_value(true, vec![]);
    spec["schema"] = Value::String("other".to_string());
    assert_eq!(
        c.vm_define(&spec.to_string()).unwrap_err().message(),
        "unexpected schema: expected `chain.control.capsule.v1`, got `other`"
    );
    let err = c.vm_define(&spec_value(false, vec![]).to_string()).unwrap_err();
    assert!(matches!(err, ControlError::Capsule(CapsuleError::Unsigned)));
    assert_eq!(err.message(), "capsule verification failed: manifest declares no signatures");
    assert_eq!(c.vm_verify("ghost").unwrap_err().message(), "unknown vm id: ghost");
    assert!(c.vm_define("{").unwrap_err().message().starts_with("malformed control capsule json: "));
    assert_eq!(c.control.settle_define(Err("full".to_string())).unwrap_err().message(), "lifecycle denied: full");
}

#[test]
fn boot_policy_below_the_tenants_minimum_is_denied() {
    let mut c = control();
    let mut spec = spec_value(true, vec![]);
    spec["policy"]["tenant_min_boot_policy"] = Value::Number(Number::from(6u32));
    let err = c.vm_define(&spec.to_string()).unwrap_err();
    assert!(matches!(
        err,
        ControlError::Capsule(CapsuleError::BootPolicyTooOld { have: 5, need: 6 })
    ));
    assert_eq!(
        err.message(),
        "capsule verification failed: boot policy version 5 below tenant minimum 6"
    );
    assert_eq!(c.control.registry().len(), 0);
    assert!(c.runtime.vms.is_empty());
    spec["policy"]["tenant_min_boot_policy"] = Value::Number(Number::from(5u32));
    assert!(c.vm_define(&spec.to_string()).is_ok());
}

#[test]
fn runtime_is_handed_the_machine_of_the_command() {
    let mut c = Control::new_local();
    c.settle_define(Ok("a".to_string())).unwrap();
    c.settle_define(Ok("b".to_string())).unwrap();
    let mut seen = String::new();
    c.vm_verify("b", |vm: &str| {
        seen = vm.to_string();
        Ok("img".to_string())
    })
    .unwrap();
    assert_eq!(seen, "b");
}
