//! What the operator is shown: JSON documents with their members in
//! alphabetical order.
use vstd::prelude::*;

use crate::control::error::ControlError;
use crate::control::plane::{Control, DEFAULT_BOOT_POLICY_HASH, DEFAULT_CAPSULE_HASH};
use crate::control::stage;
use crate::json;
use crate::json::{Json, JsonObject, JsonValue};
use crate::policy::document::PolicyDocument;
use crate::receipts::chain::{ChainError, Receipt, ReceiptChain};
use crate::text;

verus! {

/// Schema of the health report.
pub const CONTROL_DOCTOR_SCHEMA: &'static str = "chain.control.doctor.v1";

/// Schema of the policy view.
pub const CONTROL_POLICY_SCHEMA: &'static str = "chain.control.policy_view.v1";

/// Schema of the receipts view.
pub const CONTROL_RECEIPTS_SCHEMA: &'static str = "chain.control.receipts_view.v1";

/// Schema version of the views.
pub const CONTROL_SCHEMA_VERSION: u32 = 1;

/// One machine in the health report.
pub open spec fn vm_view(id: Seq<char>, at: stage::VmStage) -> JsonValue {
    JsonValue::Object(
        Seq::empty().push(("state"@, JsonValue::Text(at.name()))).push(
            ("vm_id"@, JsonValue::Text(id)),
        ),
    )
}

/// The machines in the health report, in the order of their ids.
pub open spec fn vms_view(registry: stage::Registry) -> JsonValue {
    JsonValue::List(registry.map_values(|e: (Seq<char>, stage::VmStage)| vm_view(e.0, e.1)))
}

/// The health report.
pub open spec fn doctor_view(c: Control, chain: ReceiptChain) -> JsonValue {
    JsonValue::Object(
        Seq::empty().push(("deny_by_default"@, JsonValue::Bool(true))).push(
            ("expected_boot_policy_hash"@, JsonValue::Text(DEFAULT_BOOT_POLICY_HASH@)),
        ).push(("expected_capsule_hash"@, JsonValue::Text(DEFAULT_CAPSULE_HASH@))).push(
            ("hypervisor_version"@, JsonValue::Num(c.version() as nat)),
        ).push(("network_default"@, JsonValue::Text(c.policy().network_default@))).push(
            ("policy_id"@, JsonValue::Text(c.policy().policy_id@)),
        ).push(("receipt_chain_valid"@, JsonValue::Bool(chain.intact()))).push(
            ("receipt_count"@, JsonValue::Num(chain.entries().len())),
        ).push(("schema"@, JsonValue::Text(CONTROL_DOCTOR_SCHEMA@))).push(
            ("schema_version"@, JsonValue::Num(CONTROL_SCHEMA_VERSION as nat)),
        ).push(
            (
                "status"@,
                JsonValue::Text(
                    if chain.intact() {
                        "ok"@
                    } else {
                        "degraded"@
                    },
                ),
            ),
        ).push(("vm_count"@, JsonValue::Num(c.machines().len()))).push(
            ("vms"@, vms_view(c.machines())),
        ),
    )
}

/// A policy document, members in alphabetical order.
pub open spec fn document_view(d: PolicyDocument) -> JsonValue {
    JsonValue::Object(
        Seq::empty().push(("allow_debug_console"@, JsonValue::Bool(d.allow_debug_console))).push(
            ("allow_device_passthrough"@, JsonValue::Bool(d.allow_device_passthrough)),
        ).push(
            (
                "key_release"@,
                JsonValue::Object(
                    Seq::empty().push(("mode"@, JsonValue::Text(d.key_release.mode@))).push(
                        (
                            "require_pcr_match_for_sensitive_vms"@,
                            JsonValue::Bool(d.key_release.require_pcr_match_for_sensitive_vms),
                        ),
                    ),
                ),
            ),
        ).push(
            (
                "minimum_hypervisor_version"@,
                JsonValue::Num(d.minimum_hypervisor_version as nat),
            ),
        ).push(("network_default"@, JsonValue::Text(d.network_default@))).push(
            ("policy_id"@, JsonValue::Text(d.policy_id@)),
        ).push(("require_measured_boot"@, JsonValue::Bool(d.require_measured_boot))).push(
            ("require_signed_manifest"@, JsonValue::Bool(d.require_signed_manifest)),
        ).push(("schema_version"@, JsonValue::Num(d.schema_version as nat))).push(
            (
                "storage"@,
                JsonValue::Object(
                    Seq::empty().push(
                        (
                            "allow_read_write_base_image"@,
                            JsonValue::Bool(d.storage.allow_read_write_base_image),
                        ),
                    ).push(("require_encryption"@, JsonValue::Bool(d.storage.require_encryption))),
                ),
            ),
        ),
    )
}

/// A policy document, members in alphabetical order.
fn document_value(d: &PolicyDocument) -> (r: Json)
    ensures
        r@ == document_view(*d),
{
    let mut key_release = JsonObject::new();
    key_release.put_text("mode", d.key_release.mode.as_str());
    key_release.put_bool(
        "require_pcr_match_for_sensitive_vms",
        d.key_release.require_pcr_match_for_sensitive_vms,
    );
    let mut storage = JsonObject::new();
    storage.put_bool("allow_read_write_base_image", d.storage.allow_read_write_base_image);
    storage.put_bool("require_encryption", d.storage.require_encryption);
    let mut o = JsonObject::new();
    o.put_bool("allow_debug_console", d.allow_debug_console);
    o.put_bool("allow_device_passthrough", d.allow_device_passthrough);
    o.put("key_release", key_release.finish());
    o.put_num("minimum_hypervisor_version", d.minimum_hypervisor_version);
    o.put_text("network_default", d.network_default.as_str());
    o.put_text("policy_id", d.policy_id.as_str());
    o.put_bool("require_measured_boot", d.require_measured_boot);
    o.put_bool("require_signed_manifest", d.require_signed_manifest);
    o.put_num("schema_version", d.schema_version as u64);
    o.put("storage", storage.finish());
    o.finish()
}

/// The policy view.
pub open spec fn policy_view(c: Control) -> JsonValue {
    JsonValue::Object(
        Seq::empty().push(("deny_by_default"@, JsonValue::Bool(true))).push(
            ("hypervisor_version"@, JsonValue::Num(c.version() as nat)),
        ).push(("policy"@, document_view(c.policy()))).push(
            ("schema"@, JsonValue::Text(CONTROL_POLICY_SCHEMA@)),
        ).push(("schema_version"@, JsonValue::Num(CONTROL_SCHEMA_VERSION as nat))),
    )
}

/// One receipt in the receipts view.
pub open spec fn receipt_view(r: Receipt) -> JsonValue {
    JsonValue::Object(
        Seq::empty().push(("decision"@, JsonValue::Text(r.decision@))).push(
            ("event"@, JsonValue::Text(r.event@)),
        ).push(("receipt_id"@, JsonValue::Text(r.receipt_id@))),
    )
}

/// The receipts about `subject`, in order.
pub open spec fn receipts_about(rs: Seq<Receipt>, subject: Seq<char>) -> Seq<JsonValue>
    decreases rs.len(),
{
    if rs.len() == 0 {
        Seq::empty()
    } else {
        let front = receipts_about(rs.drop_last(), subject);
        if rs.last().subject@ == subject {
            front.push(receipt_view(rs.last()))
        } else {
            front
        }
    }
}

/// The receipts about a machine, or `null` when none is asked for.
pub open spec fn scoped_view(rs: Seq<Receipt>, vm: Option<Seq<char>>) -> JsonValue {
    match vm {
        Some(id) => JsonValue::List(receipts_about(rs, id)),
        None => JsonValue::Null,
    }
}

/// The characters of an optional text.
pub open spec fn vm_name(vm: Option<&str>) -> Option<Seq<char>> {
    match vm {
        Some(id) => Some(id@),
        None => None,
    }
}

/// The receipts view of an intact chain.
pub open spec fn receipts_view(chain: ReceiptChain, vm: Option<Seq<char>>) -> JsonValue {
    JsonValue::Object(
        Seq::empty().push(("head"@, JsonValue::Text(chain.head()))).push(
            ("schema"@, JsonValue::Text(CONTROL_RECEIPTS_SCHEMA@)),
        ).push(("schema_version"@, JsonValue::Num(CONTROL_SCHEMA_VERSION as nat))).push(
            ("total"@, JsonValue::Num(chain.entries().len())),
        ).push(("valid"@, JsonValue::Bool(true))).push(("vm"@, json::opt_text(vm))).push(
            ("vm_receipts"@, scoped_view(chain.entries(), vm)),
        ),
    )
}

/// The receipts about `subject`.
fn scoped_receipts(rs: &[Receipt], subject: &str) -> (r: Json)
    ensures
        r@ == JsonValue::List(receipts_about(rs@, subject@)),
{
    let mut out: Vec<Json> = Vec::new();
    let mut i: usize = 0;
    assert(out@.map_values(|j: Json| j@) =~= receipts_about(rs@.take(0), subject@));
    while i < rs.len()
        invariant
            i <= rs@.len(),
            out@.map_values(|j: Json| j@) == receipts_about(rs@.take(i as int), subject@),
        decreases rs@.len() - i,
    {
        assert(rs@.take(i + 1).drop_last() =~= rs@.take(i as int));
        if text::same(rs[i].subject.as_str(), subject) {
            let ghost before = out@.map_values(|j: Json| j@);
            let mut o = JsonObject::new();
            o.put_text("decision", rs[i].decision.as_str());
            o.put_text("event", rs[i].event.as_str());
            o.put_text("receipt_id", rs[i].receipt_id.as_str());
            let v = o.finish();
            let ghost shown = v@;
            out.push(v);
            assert(out@.map_values(|j: Json| j@) =~= before.push(shown));
        }
        i = i + 1;
    }
    assert(rs@.take(i as int) =~= rs@);
    json::list_value(out)
}

impl Control {
    /// The machines in the health report.
    fn vms_value(&self) -> (r: Json)
        ensures
            r@ == vms_view(self.machines()),
    {
        let mut out: Vec<Json> = Vec::new();
        let mut i: usize = 0;
        let n: usize = self.registry().len();
        while i < n
            invariant
                i <= n,
                n == self.machines().len(),
                out@.len() == i,
                forall|k: int|
                    0 <= k < i ==> (#[trigger] out@[k])@ == vm_view(
                        self.machines()[k].0,
                        self.machines()[k].1,
                    ),
            decreases n - i,
        {
            let mut o = JsonObject::new();
            o.put_text("state", self.registry().value_at(i).state_name().as_str());
            o.put_text("vm_id", self.registry().key_at(i));
            out.push(o.finish());
            i = i + 1;
        }
        let r = json::list_value(out);
        assert(r@->List_0 =~= vms_view(self.machines())->List_0);
        r
    }

    /// The health report on this control plane and its receipt chain.
    pub fn slate_doctor(&self, chain: &ReceiptChain) -> (r: String)
        ensures
            r@ == json::pretty(doctor_view(*self, *chain), Seq::empty()),
    {
        let valid = chain.verify().is_ok();
        let status = if valid {
            "ok"
        } else {
            "degraded"
        };
        let mut o = JsonObject::new();
        o.put_bool("deny_by_default", true);
        o.put_text("expected_boot_policy_hash", DEFAULT_BOOT_POLICY_HASH);
        o.put_text("expected_capsule_hash", DEFAULT_CAPSULE_HASH);
        o.put_num("hypervisor_version", self.hypervisor_version());
        o.put_text("network_default", self.policy_doc().network_default.as_str());
        o.put_text("policy_id", self.policy_doc().policy_id.as_str());
        o.put_bool("receipt_chain_valid", valid);
        o.put_num("receipt_count", chain.len() as u64);
        o.put_text("schema", CONTROL_DOCTOR_SCHEMA);
        o.put_num("schema_version", CONTROL_SCHEMA_VERSION as u64);
        o.put_text("status", status);
        o.put_num("vm_count", self.registry().len() as u64);
        o.put("vms", self.vms_value());
        o.finish().to_pretty()
    }

    /// The policy in force and the posture.
    pub fn policy_inspect(&self) -> (r: String)
        ensures
            r@ == json::pretty(policy_view(*self), Seq::empty()),
    {
        let mut o = JsonObject::new();
        o.put_bool("deny_by_default", true);
        o.put_num("hypervisor_version", self.hypervisor_version());
        o.put("policy", document_value(self.policy_doc()));
        o.put_text("schema", CONTROL_POLICY_SCHEMA);
        o.put_num("schema_version", CONTROL_SCHEMA_VERSION as u64);
        o.finish().to_pretty()
    }

    /// Verify the receipt chain and show it, or only the receipts about one
    /// machine. Fails closed: a broken chain is an error.
    pub fn receipts_verify(&self, chain: &ReceiptChain, vm: Option<&str>) -> (r: Result<
        String,
        ControlError,
    >)
        ensures
            match r {
                Ok(shown) => chain.intact() && shown@ == json::pretty(
                    receipts_view(*chain, vm_name(vm)),
                    Seq::empty(),
                ),
                Err(e) => !chain.intact() && (e matches ControlError::Receipt(m) && exists|
                    why: ChainError,
                    i: int,
                |
                    0 <= i < chain.entries().len() && #[trigger] chain.reports(i, why) && m@
                        == why.text() && forall|j: int|
                        0 <= j < i ==> #[trigger] chain.fault_at(j) is None),
            },
    {
        if let Err(e) = chain.verify() {
            return Err(ControlError::Receipt(e.message()));
        }
        let mut o = JsonObject::new();
        o.put_text("head", chain.head_hash());
        o.put_text("schema", CONTROL_RECEIPTS_SCHEMA);
        o.put_num("schema_version", CONTROL_SCHEMA_VERSION as u64);
        o.put_num("total", chain.len() as u64);
        o.put_bool("valid", true);
        match vm {
            Some(id) => {
                o.put_text("vm", id);
                o.put("vm_receipts", scoped_receipts(chain.receipts(), id));
            },
            None => {
                o.put("vm", Json::Null);
                o.put("vm_receipts", Json::Null);
            },
        }
        Ok(o.finish().to_pretty())
    }
}

} // verus!
