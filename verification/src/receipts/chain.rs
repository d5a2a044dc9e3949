//! Hash-chained, tamper-evident audit receipts (`chain.receipt.v1`).
//!
//! A [`ReceiptChain`] is an append-only log where each [`Receipt`] commits to
//! the previous receipt's hash.
use vstd::prelude::*;

use crate::json;
use crate::json::{Json, JsonObject, JsonValue};
use crate::primitives;
use crate::primitives::{genesis_hash, sha384_hex};
use crate::text;

verus! {

/// Schema identifier carried by every [`Receipt`].
pub const RECEIPT_SCHEMA: &'static str = "chain.receipt.v1";

/// Canonical receipt event names. The chain accepts any text as an event, so
/// callers may extend this set.
#[derive(Debug, Clone, Copy, PartialEq, Eq, Structural)]
pub enum ReceiptEvent {
    Boot,
    FirmwareBaseline,
    VmDefine,
    ManifestVerify,
    KeyRelease,
    VmLaunch,
    VmExitFault,
    DeviceAssign,
    Snapshot,
    Destroy,
    Recovery,
    PolicyChange,
}

impl ReceiptEvent {
    /// Stable wire name of this event.
    pub open spec fn wire(self) -> Seq<char> {
        match self {
            ReceiptEvent::Boot => "boot"@,
            ReceiptEvent::FirmwareBaseline => "firmware_baseline"@,
            ReceiptEvent::VmDefine => "vm_define"@,
            ReceiptEvent::ManifestVerify => "manifest_verify"@,
            ReceiptEvent::KeyRelease => "key_release"@,
            ReceiptEvent::VmLaunch => "vm_launch"@,
            ReceiptEvent::VmExitFault => "vm_exit_fault"@,
            ReceiptEvent::DeviceAssign => "device_assign"@,
            ReceiptEvent::Snapshot => "snapshot"@,
            ReceiptEvent::Destroy => "destroy"@,
            ReceiptEvent::Recovery => "recovery"@,
            ReceiptEvent::PolicyChange => "policy_change"@,
        }
    }

    /// Stable snake_case wire name for this event.
    pub fn as_str(self) -> (r: &'static str)
        ensures
            r@ == self.wire(),
    {
        match self {
            ReceiptEvent::Boot => "boot",
            ReceiptEvent::FirmwareBaseline => "firmware_baseline",
            ReceiptEvent::VmDefine => "vm_define",
            ReceiptEvent::ManifestVerify => "manifest_verify",
            ReceiptEvent::KeyRelease => "key_release",
            ReceiptEvent::VmLaunch => "vm_launch",
            ReceiptEvent::VmExitFault => "vm_exit_fault",
            ReceiptEvent::DeviceAssign => "device_assign",
            ReceiptEvent::Snapshot => "snapshot",
            ReceiptEvent::Destroy => "destroy",
            ReceiptEvent::Recovery => "recovery",
            ReceiptEvent::PolicyChange => "policy_change",
        }
    }
}

impl From<ReceiptEvent> for String {
    fn from(e: ReceiptEvent) -> (r: String)
        ensures
            r@ == e.wire(),
    {
        e.as_str().to_string()
    }
}

impl vstd::std_specs::convert::FromSpecImpl<ReceiptEvent> for String {
    open spec fn obeys_from_spec() -> bool {
        false
    }

    open spec fn from_spec(e: ReceiptEvent) -> String {
        arbitrary()
    }
}

/// Optional detached-signature descriptor for a receipt. The signature itself
/// lives out of band; this only records the algorithm and signing key id.
#[derive(Debug, PartialEq, Eq)]
pub struct ReceiptSignature {
    pub alg: String,
    pub key_id: String,
}

impl Clone for ReceiptSignature {
    fn clone(&self) -> (r: Self)
        ensures
            r == *self,
    {
        ReceiptSignature { alg: self.alg.clone(), key_id: self.key_id.clone() }
    }
}

/// A single tamper-evident audit receipt.
#[derive(Debug, PartialEq, Eq)]
pub struct Receipt {
    pub schema: String,
    pub receipt_id: String,
    pub event: String,
    pub subject: String,
    pub decision: String,
    pub policy_id: String,
    pub inputs_hash: String,
    pub previous_receipt_hash: String,
    pub receipt_hash: String,
    pub signature: Option<ReceiptSignature>,
}

impl Clone for Receipt {
    fn clone(&self) -> (r: Self)
        ensures
            r == *self,
    {
        Receipt {
            schema: self.schema.clone(),
            receipt_id: self.receipt_id.clone(),
            event: self.event.clone(),
            subject: self.subject.clone(),
            decision: self.decision.clone(),
            policy_id: self.policy_id.clone(),
            inputs_hash: self.inputs_hash.clone(),
            previous_receipt_hash: self.previous_receipt_hash.clone(),
            receipt_hash: self.receipt_hash.clone(),
            signature: self.signature.clone(),
        }
    }
}

/// The document that a receipt's hash commits to: every field but the id, the
/// hash itself and the detached signature.
pub open spec fn receipt_document(
    schema: Seq<char>,
    event: Seq<char>,
    subject: Seq<char>,
    decision: Seq<char>,
    policy_id: Seq<char>,
    inputs_hash: Seq<char>,
    previous: Seq<char>,
) -> JsonValue {
    JsonValue::Object(
        Seq::empty().push(("schema"@, JsonValue::Text(schema))).push(
            ("event"@, JsonValue::Text(event)),
        ).push(("subject"@, JsonValue::Text(subject))).push(
            ("decision"@, JsonValue::Text(decision)),
        ).push(("policy_id"@, JsonValue::Text(policy_id))).push(
            ("inputs_hash"@, JsonValue::Text(inputs_hash)),
        ).push(("previous_receipt_hash"@, JsonValue::Text(previous))),
    )
}

/// The bytes of a document's compact form.
pub open spec fn document_bytes(d: JsonValue) -> Seq<u8> {
    text::utf8(json::compact(d))
}

/// The hash of a document: SHA-384 over its compact form.
pub open spec fn document_hash(d: JsonValue) -> Seq<char> {
    primitives::sha384_hex_spec(document_bytes(d))
}

/// SHA-384 over a document's compact form, as `"sha384:<hex>"`.
pub fn hash_document(d: &Json) -> (r: String)
    ensures
        r@ == document_hash(d@),
        r@.len() == 103,
{
    sha384_hex(d.to_compact().as_str().as_bytes())
}

/// The hash that a receipt with these fields carries.
pub fn compute_receipt_hash(
    schema: &str,
    event: &str,
    subject: &str,
    decision: &str,
    policy_id: &str,
    inputs_hash: &str,
    previous_receipt_hash: &str,
) -> (r: String)
    ensures
        r@ == document_hash(
            receipt_document(
                schema@,
                event@,
                subject@,
                decision@,
                policy_id@,
                inputs_hash@,
                previous_receipt_hash@,
            ),
        ),
        r@.len() == 103,
{
    let mut o = JsonObject::new();
    o.put_text("schema", schema);
    o.put_text("event", event);
    o.put_text("subject", subject);
    o.put_text("decision", decision);
    o.put_text("policy_id", policy_id);
    o.put_text("inputs_hash", inputs_hash);
    o.put_text("previous_receipt_hash", previous_receipt_hash);
    hash_document(&o.finish())
}

impl Receipt {
    /// The document that this receipt's hash commits to.
    pub open spec fn document(self) -> JsonValue {
        receipt_document(
            self.schema@,
            self.event@,
            self.subject@,
            self.decision@,
            self.policy_id@,
            self.inputs_hash@,
            self.previous_receipt_hash@,
        )
    }

    /// The hash that this receipt's fields call for.
    pub open spec fn expected_hash(self) -> Seq<char> {
        document_hash(self.document())
    }
}

/// Errors raised while verifying or rehydrating a [`ReceiptChain`].
#[derive(Debug, PartialEq, Eq)]
pub enum ChainError {
    /// A receipt carries another schema.
    BadSchema { index: usize, expected: String, found: String },
    /// A receipt's hash is not the hash of its fields.
    HashMismatch { index: usize, expected: String, found: String },
    /// A receipt does not point back to its predecessor.
    BrokenLink { index: usize, expected: String, found: String },
    /// A chain could not be read.
    Json(String),
}

impl ChainError {
    /// The text of the error.
    pub open spec fn text(self) -> Seq<char> {
        match self {
            ChainError::BadSchema { index, expected, found } => "receipt "@ + text::decimal(
                index as nat,
            ) + " has wrong schema: expected "@ + expected@ + ", found "@ + found@,
            ChainError::HashMismatch { index, expected, found } => "receipt "@ + text::decimal(
                index as nat,
            ) + " hash mismatch: expected "@ + expected@ + ", found "@ + found@,
            ChainError::BrokenLink { index, expected, found } => "receipt "@ + text::decimal(
                index as nat,
            ) + " broken link: previous_receipt_hash "@ + found@ + " != "@ + expected@,
            ChainError::Json(detail) => "json error: "@ + detail@,
        }
    }

    /// The error as one line of text.
    pub fn message(&self) -> (r: String)
        ensures
            r@ == self.text(),
    {
        match self {
            ChainError::BadSchema { index, expected, found } => {
                let mut out = "receipt ".to_string();
                out.append(text::decimal_text(*index as u64).as_str());
                out.append(" has wrong schema: expected ");
                out.append(expected.as_str());
                out.append(", found ");
                out.append(found.as_str());
                out
            },
            ChainError::HashMismatch { index, expected, found } => {
                let mut out = "receipt ".to_string();
                out.append(text::decimal_text(*index as u64).as_str());
                out.append(" hash mismatch: expected ");
                out.append(expected.as_str());
                out.append(", found ");
                out.append(found.as_str());
                out
            },
            ChainError::BrokenLink { index, expected, found } => {
                let mut out = "receipt ".to_string();
                out.append(text::decimal_text(*index as u64).as_str());
                out.append(" broken link: previous_receipt_hash ");
                out.append(found.as_str());
                out.append(" != ");
                out.append(expected.as_str());
                out
            },
            ChainError::Json(detail) => {
                let mut out = "json error: ".to_string();
                out.append(detail.as_str());
                out
            },
        }
    }
}

/// An append-only, hash-chained sequence of [`Receipt`]s.
#[derive(Debug, PartialEq, Eq)]
pub struct ReceiptChain {
    genesis_hash: String,
    receipts: Vec<Receipt>,
}

/// What a verification finds at the first receipt that does not hold.
pub enum LinkFault {
    Schema,
    Link,
    Hash,
}

/// `after` is `before` with one receipt more, which holds these fields, points
/// back to the head of `before`, carries the hash of its fields and is not
/// signed.
pub open spec fn appended(
    before: ReceiptChain,
    after: ReceiptChain,
    event: Seq<char>,
    subject: Seq<char>,
    decision: Seq<char>,
    policy_id: Seq<char>,
    inputs_hash: Seq<char>,
) -> bool {
    let r = after.entries().last();
    &&& after.anchor() == before.anchor()
    &&& after.entries() == before.entries().push(r)
    &&& r.schema@ == RECEIPT_SCHEMA@
    &&& r.event@ == event
    &&& r.subject@ == subject
    &&& r.decision@ == decision
    &&& r.policy_id@ == policy_id
    &&& r.inputs_hash@ == inputs_hash
    &&& r.previous_receipt_hash@ == before.head()
    &&& r.receipt_hash@ == r.expected_hash()
    &&& r.receipt_id@ == ReceiptChain::receipt_id(before.entries().len(), r.receipt_hash@)
    &&& r.signature is None
}

impl ReceiptChain {
    /// The receipts, in the order in which they were appended.
    pub closed spec fn entries(&self) -> Seq<Receipt> {
        self.receipts@
    }

    /// The hash that the first of the receipts points back to.
    pub closed spec fn anchor(&self) -> Seq<char> {
        self.genesis_hash@
    }

    /// Put together what was stored; [`ReceiptChain::verify`] tells whether it holds.
    pub fn from_parts(genesis_hash: String, receipts: Vec<Receipt>) -> (r: Self)
        ensures
            r.anchor() == genesis_hash@,
            r.entries() == receipts@,
    {
        ReceiptChain { genesis_hash, receipts }
    }

    /// The genesis hash and the receipts.
    pub fn into_parts(self) -> (r: (String, Vec<Receipt>))
        ensures
            r.0@ == self.anchor(),
            r.1@ == self.entries(),
    {
        (self.genesis_hash, self.receipts)
    }

    /// The hash that receipt `i` has to point back to.
    pub open spec fn expected_previous(self, i: int) -> Seq<char> {
        if i <= 0 {
            self.anchor()
        } else {
            self.entries()[i - 1].receipt_hash@
        }
    }

    /// The first thing wrong with receipt `i`, in the order in which it is
    /// looked at: its schema, its link, its hash.
    pub open spec fn fault_at(self, i: int) -> Option<LinkFault> {
        let r = self.entries()[i];
        if r.schema@ != RECEIPT_SCHEMA@ {
            Some(LinkFault::Schema)
        } else if r.previous_receipt_hash@ != self.expected_previous(i) {
            Some(LinkFault::Link)
        } else if r.receipt_hash@ != r.expected_hash() {
            Some(LinkFault::Hash)
        } else {
            None
        }
    }

    /// Every receipt carries the schema, points back to its predecessor and
    /// holds the hash of its fields.
    pub open spec fn intact(self) -> bool {
        forall|i: int| 0 <= i < self.entries().len() ==> #[trigger] self.fault_at(i) is None
    }

    /// The hash that the next receipt will point back to.
    pub open spec fn head(self) -> Seq<char> {
        self.expected_previous(self.entries().len() as int)
    }

    /// The id of receipt number `index` with hash `hash`: a counter and the
    /// first sixteen digits of the hash.
    pub open spec fn receipt_id(index: nat, hash: Seq<char>) -> Seq<char> {
        "rcpt-"@ + text::decimal_padded(index, 6) + "-"@ + hash.subrange(7, 23)
    }

    /// Create an empty chain anchored to the fixed genesis hash.
    pub fn new() -> (r: Self)
        ensures
            r.anchor() == primitives::genesis_spec(),
            r.entries().len() == 0,
            r.intact(),
            r.head() == primitives::genesis_spec(),
    {
        ReceiptChain { genesis_hash: genesis_hash(), receipts: Vec::new() }
    }

    /// Hash that the first appended receipt links back to.
    pub fn genesis_hash(&self) -> (r: &str)
        ensures
            r@ == self.anchor(),
    {
        self.genesis_hash.as_str()
    }

    /// Hash of the most recent receipt, or the genesis hash if empty.
    pub fn head_hash(&self) -> (r: &str)
        ensures
            r@ == self.head(),
    {
        let n: usize = self.receipts.len();
        if n == 0 {
            self.genesis_hash.as_str()
        } else {
            self.receipts[n - 1].receipt_hash.as_str()
        }
    }

    /// Append a new receipt, computing its `receipt_hash` over the canonical
    /// fields and linking `previous_receipt_hash` to the prior head.
    pub fn append(
        &mut self,
        event: &str,
        subject: &str,
        decision: &str,
        policy_id: &str,
        inputs_hash: &str,
    ) -> (r: &Receipt)
        ensures
            final(self).entries() == old(self).entries().push(*r),
            appended(
                *old(self),
                *final(self),
                event@,
                subject@,
                decision@,
                policy_id@,
                inputs_hash@,
            ),
            old(self).intact() ==> final(self).intact(),
            final(self).head() == r.receipt_hash@,
    {
        let previous = self.head_hash().to_string();
        let hash = compute_receipt_hash(
            RECEIPT_SCHEMA,
            event,
            subject,
            decision,
            policy_id,
            inputs_hash,
            previous.as_str(),
        );
        let index: usize = self.receipts.len();
        let mut id = "rcpt-".to_string();
        id.append(text::decimal_padded_text(index as u64, 6).as_str());
        id.append("-");
        id.append(hash.as_str().substring_char(7, 23));
        let ghost before = *self;
        self.receipts.push(
            Receipt {
                schema: RECEIPT_SCHEMA.to_string(),
                receipt_id: id,
                event: event.to_string(),
                subject: subject.to_string(),
                decision: decision.to_string(),
                policy_id: policy_id.to_string(),
                inputs_hash: inputs_hash.to_string(),
                previous_receipt_hash: previous,
                receipt_hash: hash,
                signature: None,
            },
        );
        assert(self.entries() =~= before.entries().push(self.entries().last()));
        proof {
            if before.intact() {
                appending_keeps_intact(
                    before,
                    *self,
                    event@,
                    subject@,
                    decision@,
                    policy_id@,
                    inputs_hash@,
                );
            }
        }
        &self.receipts[index]
    }

    /// All receipts in append order.
    pub fn receipts(&self) -> (r: &[Receipt])
        ensures
            r@ == self.entries(),
    {
        self.receipts.as_slice()
    }

    /// Number of receipts in the chain.
    pub fn len(&self) -> (r: usize)
        ensures
            r == self.entries().len(),
    {
        self.receipts.len()
    }

    /// Whether the chain holds no receipts.
    pub fn is_empty(&self) -> (r: bool)
        ensures
            r == (self.entries().len() == 0),
    {
        self.receipts.len() == 0
    }

    /// Whether `e` reports what is wrong with receipt `i`.
    pub open spec fn reports(self, i: int, e: ChainError) -> bool {
        let r = self.entries()[i];
        match self.fault_at(i) {
            Some(LinkFault::Schema) => e matches ChainError::BadSchema { index, expected, found }
                && index == i && expected@ == RECEIPT_SCHEMA@ && found@ == r.schema@,
            Some(LinkFault::Link) => e matches ChainError::BrokenLink { index, expected, found }
                && index == i && expected@ == self.expected_previous(i) && found@
                == r.previous_receipt_hash@,
            Some(LinkFault::Hash) => e matches ChainError::HashMismatch { index, expected, found }
                && index == i && expected@ == r.expected_hash() && found@ == r.receipt_hash@,
            None => false,
        }
    }

    /// Recompute every receipt hash and verify all prev-links. Fails closed:
    /// the first schema mismatch, broken link or hash mismatch is reported.
    pub fn verify(&self) -> (r: Result<(), ChainError>)
        ensures
            r is Ok <==> self.intact(),
            r matches Err(e) ==> exists|i: int|
                0 <= i < self.entries().len() && #[trigger] self.reports(i, e) && forall|j: int|
                    0 <= j < i ==> #[trigger] self.fault_at(j) is None,
    {
        let mut expected_prev = self.genesis_hash.clone();
        let mut index: usize = 0;
        while index < self.receipts.len()
            invariant
                index <= self.entries().len(),
                expected_prev@ == self.expected_previous(index as int),
                forall|j: int| 0 <= j < index ==> #[trigger] self.fault_at(j) is None,
            decreases self.entries().len() - index,
        {
            let r = &self.receipts[index];
            if !text::same(r.schema.as_str(), RECEIPT_SCHEMA) {
                let e = ChainError::BadSchema {
                    index,
                    expected: RECEIPT_SCHEMA.to_string(),
                    found: r.schema.clone(),
                };
                assert(self.reports(index as int, e));
                return Err(e);
            }
            if !text::same(r.previous_receipt_hash.as_str(), expected_prev.as_str()) {
                let e = ChainError::BrokenLink {
                    index,
                    expected: expected_prev,
                    found: r.previous_receipt_hash.clone(),
                };
                assert(self.reports(index as int, e));
                return Err(e);
            }
            let recomputed = compute_receipt_hash(
                r.schema.as_str(),
                r.event.as_str(),
                r.subject.as_str(),
                r.decision.as_str(),
                r.policy_id.as_str(),
                r.inputs_hash.as_str(),
                r.previous_receipt_hash.as_str(),
            );
            if !text::same(recomputed.as_str(), r.receipt_hash.as_str()) {
                let e = ChainError::HashMismatch {
                    index,
                    expected: recomputed,
                    found: r.receipt_hash.clone(),
                };
                assert(self.reports(index as int, e));
                return Err(e);
            }
            expected_prev = r.receipt_hash.clone();
            index = index + 1;
        }
        Ok(())
    }
}

// ------------------------------------------------------------------- JSON

impl ReceiptSignature {
    /// The descriptor as a document.
    pub open spec fn json(self) -> JsonValue {
        JsonValue::Object(
            Seq::empty().push(("alg"@, JsonValue::Text(self.alg@))).push(
                ("key_id"@, JsonValue::Text(self.key_id@)),
            ),
        )
    }

    fn to_value(&self) -> (r: Json)
        ensures
            r@ == self.json(),
    {
        let mut o = JsonObject::new();
        o.put_text("alg", self.alg.as_str());
        o.put_text("key_id", self.key_id.as_str());
        o.finish()
    }
}

impl Receipt {
    /// The receipt as a document; the signature is left out where there is
    /// none.
    pub open spec fn json(self) -> JsonValue {
        let m = Seq::empty().push(("schema"@, JsonValue::Text(self.schema@))).push(
            ("receipt_id"@, JsonValue::Text(self.receipt_id@)),
        ).push(("event"@, JsonValue::Text(self.event@))).push(
            ("subject"@, JsonValue::Text(self.subject@)),
        ).push(("decision"@, JsonValue::Text(self.decision@))).push(
            ("policy_id"@, JsonValue::Text(self.policy_id@)),
        ).push(("inputs_hash"@, JsonValue::Text(self.inputs_hash@))).push(
            ("previous_receipt_hash"@, JsonValue::Text(self.previous_receipt_hash@)),
        ).push(("receipt_hash"@, JsonValue::Text(self.receipt_hash@)));
        JsonValue::Object(
            match self.signature {
                Some(s) => m.push(("signature"@, s.json())),
                None => m,
            },
        )
    }

    /// The receipt as a document.
    pub fn to_value(&self) -> (r: Json)
        ensures
            r@ == self.json(),
    {
        let mut o = JsonObject::new();
        o.put_text("schema", self.schema.as_str());
        o.put_text("receipt_id", self.receipt_id.as_str());
        o.put_text("event", self.event.as_str());
        o.put_text("subject", self.subject.as_str());
        o.put_text("decision", self.decision.as_str());
        o.put_text("policy_id", self.policy_id.as_str());
        o.put_text("inputs_hash", self.inputs_hash.as_str());
        o.put_text("previous_receipt_hash", self.previous_receipt_hash.as_str());
        o.put_text("receipt_hash", self.receipt_hash.as_str());
        if let Some(s) = &self.signature {
            o.put("signature", s.to_value());
        }
        o.finish()
    }
}

impl ReceiptChain {
    /// The chain as a document.
    pub open spec fn json(self) -> JsonValue {
        JsonValue::Object(
            Seq::empty().push(("genesis_hash"@, JsonValue::Text(self.anchor()))).push(
                (
                    "receipts"@,
                    JsonValue::List(self.entries().map_values(|r: Receipt| r.json())),
                ),
            ),
        )
    }

    /// Serialize the chain to indented JSON. This never fails.
    pub fn to_json(&self) -> (r: Result<String, ChainError>)
        ensures
            r matches Ok(s) && s@ == json::pretty(self.json(), Seq::empty()),
    {
        let mut items: Vec<Json> = Vec::new();
        let mut i: usize = 0;
        while i < self.receipts.len()
            invariant
                i <= self.entries().len(),
                items@.len() == i,
                forall|k: int| 0 <= k < i ==> (#[trigger] items@[k])@ == self.entries()[k].json(),
            decreases self.entries().len() - i,
        {
            items.push(self.receipts[i].to_value());
            i = i + 1;
        }
        let ghost views = items@.map_values(|j: Json| j@);
        assert(views =~= self.entries().map_values(|r: Receipt| r.json()));
        let mut o = JsonObject::new();
        o.put_text("genesis_hash", self.genesis_hash.as_str());
        o.put("receipts", json::list_value(items));
        Ok(o.finish().to_pretty())
    }
}

impl Clone for ReceiptChain {
    fn clone(&self) -> (r: Self)
        ensures
            r.anchor() == self.anchor(),
            r.entries() == self.entries(),
    {
        ReceiptChain { genesis_hash: self.genesis_hash.clone(), receipts: self.receipts.clone() }
    }
}

impl Default for ReceiptChain {
    fn default() -> (r: Self)
        ensures
            r.anchor() == primitives::genesis_spec(),
            r.entries().len() == 0,
    {
        Self::new()
    }
}

// ------------------------------------------------------------------- laws

/// The bytes of a document pin the document.
pub proof fn document_bytes_pin_document(a: JsonValue, b: JsonValue)
    requires
        document_bytes(a) == document_bytes(b),
    ensures
        a == b,
{
    text::utf8_is_injective(json::compact(a), json::compact(b));
    json::unambiguous::compact_is_injective(a, b);
}

/// A document's hash pins the document, unless the two documents are a
/// SHA-384 collision.
pub proof fn document_hash_pins_document(a: JsonValue, b: JsonValue)
    requires
        document_hash(a) == document_hash(b),
    ensures
        a == b || primitives::collide(document_bytes(a), document_bytes(b)),
{
    primitives::sha384_hex_keeps_digest(document_bytes(a), document_bytes(b));
    if document_bytes(a) == document_bytes(b) {
        document_bytes_pin_document(a, b);
    }
}

/// A receipt's document holds each of the committed fields.
pub proof fn receipt_document_pins_fields(a: Receipt, b: Receipt)
    requires
        a.document() == b.document(),
    ensures
        a.schema@ == b.schema@,
        a.event@ == b.event@,
        a.subject@ == b.subject@,
        a.decision@ == b.decision@,
        a.policy_id@ == b.policy_id@,
        a.inputs_hash@ == b.inputs_hash@,
        a.previous_receipt_hash@ == b.previous_receipt_hash@,
{
    let (p, q) = (a.document()->Object_0, b.document()->Object_0);
    assert(p[0] == q[0] && p[1] == q[1] && p[2] == q[2] && p[3] == q[3]);
    assert(p[4] == q[4] && p[5] == q[5] && p[6] == q[6]);
}

/// Receipt `i` of the two chains is a SHA-384 collision.
pub open spec fn collide_at(a: ReceiptChain, b: ReceiptChain, i: int) -> bool {
    primitives::collide(
        document_bytes(a.entries()[i].document()),
        document_bytes(b.entries()[i].document()),
    )
}

/// The head hash of an intact chain pins its whole history: two intact chains
/// of the same length with the same head agree on every committed field of
/// every receipt, unless one pair of receipts is a SHA-384 collision.
pub proof fn head_pins_history(a: ReceiptChain, b: ReceiptChain)
    requires
        a.intact(),
        b.intact(),
        a.entries().len() == b.entries().len(),
        a.head() == b.head(),
        forall|i: int| 0 <= i < a.entries().len() ==> !#[trigger] collide_at(a, b, i),
    ensures
        a.anchor() == b.anchor(),
        forall|i: int|
            0 <= i < a.entries().len() ==> (#[trigger] a.entries()[i]).document()
                == b.entries()[i].document() && a.entries()[i].receipt_hash@
                == b.entries()[i].receipt_hash@,
{
    history_from(a, b, a.entries().len());
}

proof fn history_from(a: ReceiptChain, b: ReceiptChain, n: nat)
    requires
        a.intact(),
        b.intact(),
        n <= a.entries().len(),
        a.entries().len() == b.entries().len(),
        a.expected_previous(n as int) == b.expected_previous(n as int),
        forall|i: int| 0 <= i < a.entries().len() ==> !#[trigger] collide_at(a, b, i),
    ensures
        a.anchor() == b.anchor(),
        forall|i: int|
            0 <= i < n ==> (#[trigger] a.entries()[i]).document() == b.entries()[i].document()
                && a.entries()[i].receipt_hash@ == b.entries()[i].receipt_hash@,
    decreases n,
{
    if n > 0 {
        let k = n - 1;
        assert(a.fault_at(k) is None && b.fault_at(k) is None);
        assert(!collide_at(a, b, k));
        document_hash_pins_document(a.entries()[k].document(), b.entries()[k].document());
        receipt_document_pins_fields(a.entries()[k], b.entries()[k]);
        history_from(a, b, k as nat);
    }
}

/// The chain with receipt `i` exchanged for `r`.
pub open spec fn exchanged(chain: ReceiptChain, i: int, r: Receipt, tampered: ReceiptChain) -> bool {
    &&& 0 <= i < chain.entries().len()
    &&& tampered.anchor() == chain.anchor()
    &&& tampered.entries() == chain.entries().update(i, r)
}

/// Editing a committed field of a receipt is found by verification, whether or
/// not the receipt's own hash is recomputed, as long as the head is kept (it
/// is, for every receipt but the last) and the old and the new receipt are not
/// a SHA-384 collision.
pub proof fn tampering_is_found(chain: ReceiptChain, i: int, r: Receipt, tampered: ReceiptChain)
    requires
        chain.intact(),
        exchanged(chain, i, r, tampered),
        r.document() != chain.entries()[i].document(),
        i + 1 < chain.entries().len() || r.receipt_hash@ == chain.entries()[i].receipt_hash@,
        !collide_at(chain, tampered, i),
    ensures
        !tampered.intact(),
{
    if tampered.intact() {
        let n = chain.entries().len() as int;
        assert(tampered.entries().len() == n);
        assert(tampered.entries()[i] == r);
        if i + 1 < n {
            assert(tampered.entries()[n - 1] == chain.entries()[n - 1]);
        }
        assert forall|k: int| 0 <= k < n implies !#[trigger] collide_at(chain, tampered, k) by {
            if k != i {
                assert(tampered.entries()[k] == chain.entries()[k]);
            }
        }
        head_pins_history(chain, tampered);
        assert(chain.entries()[i].document() == tampered.entries()[i].document());
    }
}

/// Appending keeps an intact chain intact.
pub proof fn appending_keeps_intact(
    before: ReceiptChain,
    after: ReceiptChain,
    event: Seq<char>,
    subject: Seq<char>,
    decision: Seq<char>,
    policy_id: Seq<char>,
    inputs_hash: Seq<char>,
)
    requires
        before.intact(),
        appended(before, after, event, subject, decision, policy_id, inputs_hash),
    ensures
        after.intact(),
{
    assert forall|i: int| 0 <= i < after.entries().len() implies #[trigger] after.fault_at(
        i,
    ) is None by {
        if i < before.entries().len() {
            assert(before.fault_at(i) is None);
            assert(after.entries()[i] == before.entries()[i]);
            if i > 0 {
                assert(after.entries()[i - 1] == before.entries()[i - 1]);
            }
        }
    }
}

/// An intact chain stays intact when receipts are dropped from its end.
pub proof fn prefix_of_intact_is_intact(chain: ReceiptChain, n: int, prefix: ReceiptChain)
    requires
        chain.intact(),
        0 <= n <= chain.entries().len(),
        prefix.anchor() == chain.anchor(),
        prefix.entries() == chain.entries().take(n),
    ensures
        prefix.intact(),
{
    assert forall|i: int| 0 <= i < prefix.entries().len() implies #[trigger] prefix.fault_at(
        i,
    ) is None by {
        assert(chain.fault_at(i) is None);
        assert(prefix.entries()[i] == chain.entries()[i]);
        if i > 0 {
            assert(prefix.entries()[i - 1] == chain.entries()[i - 1]);
        }
    }
}

/// Two receipts that hold the same in every field.
pub open spec fn same_receipt(a: Receipt, b: Receipt) -> bool {
    &&& a.document() == b.document()
    &&& a.receipt_id@ == b.receipt_id@
    &&& a.receipt_hash@ == b.receipt_hash@
    &&& match (a.signature, b.signature) {
        (Some(s), Some(t)) => s.alg@ == t.alg@ && s.key_id@ == t.key_id@,
        (None, None) => true,
        _ => false,
    }
}

/// A receipt's stored form holds every field of it.
pub proof fn stored_receipt_pins_fields(a: Receipt, b: Receipt)
    requires
        a.json() == b.json(),
    ensures
        same_receipt(a, b),
{
    let (p, q) = (a.json()->Object_0, b.json()->Object_0);
    assert(p[0] == q[0] && p[1] == q[1] && p[2] == q[2] && p[3] == q[3] && p[4] == q[4]);
    assert(p[5] == q[5] && p[6] == q[6] && p[7] == q[7] && p[8] == q[8]);
    assert(p.len() == q.len());
    if a.signature is Some {
        assert(p[9] == q[9]);
        let (s, t) = (
            (a.signature->0).json()->Object_0,
            (b.signature->0).json()->Object_0,
        );
        assert(s == t);
        assert(s[0] == t[0] && s[1] == t[1]);
    }
}

/// Storing a chain loses nothing: chains with the same stored form hold the same
/// in every receipt, and the one is intact exactly where the other is.
pub proof fn stored_form_pins_chain(a: ReceiptChain, b: ReceiptChain)
    requires
        json::pretty(a.json(), Seq::empty()) == json::pretty(b.json(), Seq::empty()),
    ensures
        a.anchor() == b.anchor(),
        a.entries().len() == b.entries().len(),
        forall|i: int|
            0 <= i < a.entries().len() ==> same_receipt(#[trigger] a.entries()[i], b.entries()[i]),
        a.head() == b.head(),
        a.intact() == b.intact(),
{
    json::indented::pretty_is_injective(a.json(), b.json());
    let (p, q) = (a.json()->Object_0, b.json()->Object_0);
    assert(p[0] == q[0] && p[1] == q[1]);
    let (s, t) = (p[1].1->List_0, q[1].1->List_0);
    assert(s == t);
    assert(s.len() == a.entries().len() && t.len() == b.entries().len());
    assert forall|i: int| 0 <= i < a.entries().len() implies same_receipt(
        #[trigger] a.entries()[i],
        b.entries()[i],
    ) && a.expected_previous(i) == b.expected_previous(i) by {
        assert(s[i] == a.entries()[i].json() && t[i] == b.entries()[i].json());
        stored_receipt_pins_fields(a.entries()[i], b.entries()[i]);
        if i > 0 {
            assert(s[i - 1] == a.entries()[i - 1].json() && t[i - 1] == b.entries()[i - 1].json());
            stored_receipt_pins_fields(a.entries()[i - 1], b.entries()[i - 1]);
        }
    }
    assert forall|i: int| 0 <= i < a.entries().len() implies #[trigger] a.fault_at(i)
        == b.fault_at(i) by {
        assert(same_receipt(a.entries()[i], b.entries()[i]));
        receipt_document_pins_fields(a.entries()[i], b.entries()[i]);
        assert(a.expected_previous(i) == b.expected_previous(i));
    }
    if a.intact() {
        assert forall|i: int| 0 <= i < b.entries().len() implies #[trigger] b.fault_at(i) is None by {
            assert(a.fault_at(i) is None);
        }
    }
    if b.intact() {
        assert forall|i: int| 0 <= i < a.entries().len() implies #[trigger] a.fault_at(i) is None by {
            assert(b.fault_at(i) is None);
        }
    }
    let n = a.entries().len() as int;
    if n > 0 {
        assert(same_receipt(a.entries()[n - 1], b.entries()[n - 1]));
    }
}

} // verus!
