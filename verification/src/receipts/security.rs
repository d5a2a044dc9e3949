//! Hash-chained security-event log (`chain.security_event.v1`).
//!
//! Independent of the audit-receipt chain but built in the same way. Records
//! component-level security events with structured fields.
use vstd::prelude::*;

use crate::json;
use crate::json::{Json, JsonObject, JsonValue};
use crate::primitives;
use crate::primitives::genesis_hash;
use crate::receipts::chain;
use crate::text;
use crate::text_map::TextMap;

verus! {

/// Schema identifier carried by every [`SecurityEvent`].
pub const SECURITY_EVENT_SCHEMA: &'static str = "chain.security_event.v1";

/// Severity ladder for security events.
#[derive(Debug, Clone, Copy, PartialEq, Eq, Structural)]
pub enum Severity {
    Low,
    Medium,
    High,
    Critical,
}

impl Severity {
    /// Stable wire name.
    pub open spec fn wire(self) -> Seq<char> {
        match self {
            Severity::Low => "low"@,
            Severity::Medium => "medium"@,
            Severity::High => "high"@,
            Severity::Critical => "critical"@,
        }
    }

    /// Stable snake_case wire name.
    pub fn as_str(self) -> (r: &'static str)
        ensures
            r@ == self.wire(),
    {
        match self {
            Severity::Low => "low",
            Severity::Medium => "medium",
            Severity::High => "high",
            Severity::Critical => "critical",
        }
    }
}

/// A single hash-chained security event.
#[derive(Debug, Clone, PartialEq, Eq)]
pub struct SecurityEvent {
    pub schema: String,
    pub event_id: String,
    pub severity: Severity,
    pub component: String,
    pub event: String,
    pub vm_id: Option<String>,
    pub action: String,
    pub fields: TextMap<String>,
    pub hash_prev: String,
    pub hash_this: String,
}

/// The structured fields as a document, keys in ascending order.
pub open spec fn fields_json(fields: Seq<(Seq<char>, String)>) -> JsonValue {
    JsonValue::Object(fields.map_values(|e: (Seq<char>, String)| (e.0, JsonValue::Text(e.1@))))
}

fn fields_value(fields: &TextMap<String>) -> (r: Json)
    ensures
        r@ == fields_json(fields@),
{
    let mut o = JsonObject::new();
    let n: usize = fields.len();
    let mut i: usize = 0;
    while i < n
        invariant
            n == fields@.len(),
            i <= n,
            o@.len() == i,
            forall|k: int|
                0 <= k < i ==> #[trigger] o@[k] == (
                    fields@[k].0,
                    JsonValue::Text(fields@[k].1@),
                ),
        decreases n - i,
    {
        o.put_text(fields.key_at(i), fields.value_at(i).as_str());
        i = i + 1;
    }
    assert(o@ =~= fields_json(fields@)->Object_0);
    o.finish()
}

/// The document that an event's hash commits to: every field but the id and
/// the hash itself.
pub open spec fn security_document(
    schema: Seq<char>,
    severity: Severity,
    component: Seq<char>,
    event: Seq<char>,
    vm_id: Option<Seq<char>>,
    action: Seq<char>,
    fields: Seq<(Seq<char>, String)>,
    hash_prev: Seq<char>,
) -> JsonValue {
    JsonValue::Object(
        Seq::empty().push(("schema"@, JsonValue::Text(schema))).push(
            ("severity"@, JsonValue::Text(severity.wire())),
        ).push(("component"@, JsonValue::Text(component))).push(
            ("event"@, JsonValue::Text(event)),
        ).push(("vm_id"@, json::opt_text(vm_id))).push(("action"@, JsonValue::Text(action))).push(
            ("fields"@, fields_json(fields)),
        ).push(("hash_prev"@, JsonValue::Text(hash_prev))),
    )
}

/// The hash that an event with these fields carries.
pub fn compute_security_hash(
    schema: &str,
    severity: Severity,
    component: &str,
    event: &str,
    vm_id: &Option<String>,
    action: &str,
    fields: &TextMap<String>,
    hash_prev: &str,
) -> (r: String)
    ensures
        r@ == chain::document_hash(
            security_document(
                schema@,
                severity,
                component@,
                event@,
                text::opt_view(*vm_id),
                action@,
                fields@,
                hash_prev@,
            ),
        ),
        r@.len() == 103,
{
    let mut o = JsonObject::new();
    o.put_text("schema", schema);
    o.put_text("severity", severity.as_str());
    o.put_text("component", component);
    o.put_text("event", event);
    o.put_opt_text("vm_id", vm_id);
    o.put_text("action", action);
    o.put("fields", fields_value(fields));
    o.put_text("hash_prev", hash_prev);
    chain::hash_document(&o.finish())
}

impl SecurityEvent {
    /// The document that this event's hash commits to.
    pub open spec fn document(self) -> JsonValue {
        security_document(
            self.schema@,
            self.severity,
            self.component@,
            self.event@,
            text::opt_view(self.vm_id),
            self.action@,
            self.fields@,
            self.hash_prev@,
        )
    }

    /// The hash that this event's fields call for.
    pub open spec fn expected_hash(self) -> Seq<char> {
        chain::document_hash(self.document())
    }

    /// The event as a document; the machine is left out where there is none.
    pub open spec fn json(self) -> JsonValue {
        let m = Seq::empty().push(("schema"@, JsonValue::Text(self.schema@))).push(
            ("event_id"@, JsonValue::Text(self.event_id@)),
        ).push(("severity"@, JsonValue::Text(self.severity.wire()))).push(
            ("component"@, JsonValue::Text(self.component@)),
        ).push(("event"@, JsonValue::Text(self.event@)));
        let m = match self.vm_id {
            Some(id) => m.push(("vm_id"@, JsonValue::Text(id@))),
            None => m,
        };
        JsonValue::Object(
            m.push(("action"@, JsonValue::Text(self.action@))).push(
                ("fields"@, fields_json(self.fields@)),
            ).push(("hash_prev"@, JsonValue::Text(self.hash_prev@))).push(
                ("hash_this"@, JsonValue::Text(self.hash_this@)),
            ),
        )
    }

    /// The event as a document.
    pub fn to_value(&self) -> (r: Json)
        ensures
            r@ == self.json(),
    {
        let mut o = JsonObject::new();
        o.put_text("schema", self.schema.as_str());
        o.put_text("event_id", self.event_id.as_str());
        o.put_text("severity", self.severity.as_str());
        o.put_text("component", self.component.as_str());
        o.put_text("event", self.event.as_str());
        if let Some(id) = &self.vm_id {
            o.put_text("vm_id", id.as_str());
        }
        o.put_text("action", self.action.as_str());
        o.put("fields", fields_value(&self.fields));
        o.put_text("hash_prev", self.hash_prev.as_str());
        o.put_text("hash_this", self.hash_this.as_str());
        o.finish()
    }
}

/// Errors raised while verifying or rehydrating a [`SecurityLog`].
#[derive(Debug, PartialEq, Eq)]
pub enum SecurityLogError {
    /// An event carries another schema.
    BadSchema { index: usize, expected: String, found: String },
    /// An event's hash is not the hash of its fields.
    HashMismatch { index: usize, expected: String, found: String },
    /// An event does not point back to its predecessor.
    BrokenLink { index: usize, expected: String, found: String },
    /// A log could not be read.
    Json(String),
}

impl SecurityLogError {
    /// The text of the error.
    pub open spec fn text(self) -> Seq<char> {
        match self {
            SecurityLogError::BadSchema { index, expected, found } => "event "@ + text::decimal(
                index as nat,
            ) + " has wrong schema: expected "@ + expected@ + ", found "@ + found@,
            SecurityLogError::HashMismatch { index, expected, found } => "event "@ + text::decimal(
                index as nat,
            ) + " hash mismatch: expected "@ + expected@ + ", found "@ + found@,
            SecurityLogError::BrokenLink { index, expected, found } => "event "@ + text::decimal(
                index as nat,
            ) + " broken link: hash_prev "@ + found@ + " != "@ + expected@,
            SecurityLogError::Json(detail) => "json error: "@ + detail@,
        }
    }

    /// The error as one line of text.
    pub fn message(&self) -> (r: String)
        ensures
            r@ == self.text(),
    {
        match self {
            SecurityLogError::BadSchema { index, expected, found } => {
                let mut out = "event ".to_string();
                out.append(text::decimal_text(*index as u64).as_str());
                out.append(" has wrong schema: expected ");
                out.append(expected.as_str());
                out.append(", found ");
                out.append(found.as_str());
                out
            },
            SecurityLogError::HashMismatch { index, expected, found } => {
                let mut out = "event ".to_string();
                out.append(text::decimal_text(*index as u64).as_str());
                out.append(" hash mismatch: expected ");
                out.append(expected.as_str());
                out.append(", found ");
                out.append(found.as_str());
                out
            },
            SecurityLogError::BrokenLink { index, expected, found } => {
                let mut out = "event ".to_string();
                out.append(text::decimal_text(*index as u64).as_str());
                out.append(" broken link: hash_prev ");
                out.append(found.as_str());
                out.append(" != ");
                out.append(expected.as_str());
                out
            },
            SecurityLogError::Json(detail) => {
                let mut out = "json error: ".to_string();
                out.append(detail.as_str());
                out
            },
        }
    }
}

/// An append-only, hash-chained security-event log.
#[derive(Debug, Clone, PartialEq, Eq)]
pub struct SecurityLog {
    genesis_hash: String,
    events: Vec<SecurityEvent>,
}

impl Default for SecurityLog {
    fn default() -> (r: Self)
        ensures
            r.anchor() == primitives::genesis_spec(),
            r.entries().len() == 0,
    {
        Self::new()
    }
}

impl SecurityLog {
    /// The events, in the order in which they were appended.
    pub closed spec fn entries(&self) -> Seq<SecurityEvent> {
        self.events@
    }

    /// The hash that the first of the events points back to.
    pub closed spec fn anchor(&self) -> Seq<char> {
        self.genesis_hash@
    }

    /// Put together what was stored; [`SecurityLog::verify`] tells whether it holds.
    pub fn from_parts(genesis_hash: String, events: Vec<SecurityEvent>) -> (r: Self)
        ensures
            r.anchor() == genesis_hash@,
            r.entries() == events@,
    {
        SecurityLog { genesis_hash, events }
    }

    /// The genesis hash and the events.
    pub fn into_parts(self) -> (r: (String, Vec<SecurityEvent>))
        ensures
            r.0@ == self.anchor(),
            r.1@ == self.entries(),
    {
        (self.genesis_hash, self.events)
    }

    /// The hash that event `i` has to point back to.
    pub open spec fn expected_previous(self, i: int) -> Seq<char> {
        if i <= 0 {
            self.anchor()
        } else {
            self.entries()[i - 1].hash_this@
        }
    }

    /// The first thing wrong with event `i`, in the order in which it is
    /// looked at: its schema, its link, its hash.
    pub open spec fn fault_at(self, i: int) -> Option<chain::LinkFault> {
        let e = self.entries()[i];
        if e.schema@ != SECURITY_EVENT_SCHEMA@ {
            Some(chain::LinkFault::Schema)
        } else if e.hash_prev@ != self.expected_previous(i) {
            Some(chain::LinkFault::Link)
        } else if e.hash_this@ != e.expected_hash() {
            Some(chain::LinkFault::Hash)
        } else {
            None
        }
    }

    /// Every event carries the schema, points back to its predecessor and
    /// holds the hash of its fields.
    pub open spec fn intact(self) -> bool {
        forall|i: int| 0 <= i < self.entries().len() ==> #[trigger] self.fault_at(i) is None
    }

    /// The hash that the next event will point back to.
    pub open spec fn head(self) -> Seq<char> {
        self.expected_previous(self.entries().len() as int)
    }

    /// The id of event number `index` with hash `hash`.
    pub open spec fn event_id(index: nat, hash: Seq<char>) -> Seq<char> {
        "sec-"@ + text::decimal_padded(index, 6) + "-"@ + hash.subrange(7, 23)
    }

    /// Whether `e` reports what is wrong with event `i`.
    pub open spec fn reports(self, i: int, e: SecurityLogError) -> bool {
        let v = self.entries()[i];
        match self.fault_at(i) {
            Some(chain::LinkFault::Schema) => e matches SecurityLogError::BadSchema {
                index,
                expected,
                found,
            } && index == i && expected@ == SECURITY_EVENT_SCHEMA@ && found@ == v.schema@,
            Some(chain::LinkFault::Link) => e matches SecurityLogError::BrokenLink {
                index,
                expected,
                found,
            } && index == i && expected@ == self.expected_previous(i) && found@ == v.hash_prev@,
            Some(chain::LinkFault::Hash) => e matches SecurityLogError::HashMismatch {
                index,
                expected,
                found,
            } && index == i && expected@ == v.expected_hash() && found@ == v.hash_this@,
            None => false,
        }
    }

    /// Create an empty log anchored to the fixed genesis hash.
    pub fn new() -> (r: Self)
        ensures
            r.anchor() == primitives::genesis_spec(),
            r.entries().len() == 0,
            r.intact(),
            r.head() == primitives::genesis_spec(),
    {
        SecurityLog { genesis_hash: genesis_hash(), events: Vec::new() }
    }

    /// Hash that the first appended event links back to.
    pub fn genesis_hash(&self) -> (r: &str)
        ensures
            r@ == self.anchor(),
    {
        self.genesis_hash.as_str()
    }

    /// Hash of the most recent event, or the genesis hash if empty.
    pub fn head_hash(&self) -> (r: &str)
        ensures
            r@ == self.head(),
    {
        let n: usize = self.events.len();
        if n == 0 {
            self.genesis_hash.as_str()
        } else {
            self.events[n - 1].hash_this.as_str()
        }
    }

    /// Append a security event, computing `hash_this` and linking `hash_prev`.
    pub fn append(
        &mut self,
        severity: Severity,
        component: &str,
        event: &str,
        vm_id: Option<String>,
        action: &str,
        fields: TextMap<String>,
    ) -> (r: &SecurityEvent)
        ensures
            final(self).anchor() == old(self).anchor(),
            final(self).entries() == old(self).entries().push(*r),
            r.schema@ == SECURITY_EVENT_SCHEMA@,
            r.severity == severity,
            r.component@ == component@,
            r.event@ == event@,
            r.vm_id == vm_id,
            r.action@ == action@,
            r.fields == fields,
            r.hash_prev@ == old(self).head(),
            r.hash_this@ == r.expected_hash(),
            r.event_id@ == Self::event_id(old(self).entries().len(), r.hash_this@),
            old(self).intact() ==> final(self).intact(),
            final(self).head() == r.hash_this@,
    {
        let hash_prev = self.head_hash().to_string();
        let hash_this = compute_security_hash(
            SECURITY_EVENT_SCHEMA,
            severity,
            component,
            event,
            &vm_id,
            action,
            &fields,
            hash_prev.as_str(),
        );
        let index: usize = self.events.len();
        let mut event_id = "sec-".to_string();
        event_id.append(text::decimal_padded_text(index as u64, 6).as_str());
        event_id.append("-");
        event_id.append(hash_this.as_str().substring_char(7, 23));
        let ghost before = *self;
        self.events.push(
            SecurityEvent {
                schema: SECURITY_EVENT_SCHEMA.to_string(),
                event_id,
                severity,
                component: component.to_string(),
                event: event.to_string(),
                vm_id,
                action: action.to_string(),
                fields,
                hash_prev,
                hash_this,
            },
        );
        proof {
            if before.intact() {
                assert forall|i: int| 0 <= i < self.entries().len() implies #[trigger] self.fault_at(
                    i,
                ) is None by {
                    if i < before.entries().len() {
                        assert(before.fault_at(i) is None);
                        assert(self.entries()[i] == before.entries()[i]);
                        if i > 0 {
                            assert(self.entries()[i - 1] == before.entries()[i - 1]);
                        }
                    }
                }
            }
        }
        &self.events[index]
    }

    /// All events in append order.
    pub fn events(&self) -> (r: &[SecurityEvent])
        ensures
            r@ == self.entries(),
    {
        self.events.as_slice()
    }

    /// Number of events in the log.
    pub fn len(&self) -> (r: usize)
        ensures
            r == self.entries().len(),
    {
        self.events.len()
    }

    /// Whether the log holds no events.
    pub fn is_empty(&self) -> (r: bool)
        ensures
            r == (self.entries().len() == 0),
    {
        self.events.len() == 0
    }

    /// Recompute every event hash and verify all prev-links. Fails closed: the
    /// first schema mismatch, broken link or hash mismatch is reported.
    pub fn verify(&self) -> (r: Result<(), SecurityLogError>)
        ensures
            r is Ok <==> self.intact(),
            r matches Err(e) ==> exists|i: int|
                0 <= i < self.entries().len() && #[trigger] self.reports(i, e) && forall|j: int|
                    0 <= j < i ==> #[trigger] self.fault_at(j) is None,
    {
        let mut expected_prev = self.genesis_hash.clone();
        let mut index: usize = 0;
        while index < self.events.len()
            invariant
                index <= self.entries().len(),
                expected_prev@ == self.expected_previous(index as int),
                forall|j: int| 0 <= j < index ==> #[trigger] self.fault_at(j) is None,
            decreases self.entries().len() - index,
        {
            let e = &self.events[index];
            if !text::same(e.schema.as_str(), SECURITY_EVENT_SCHEMA) {
                let err = SecurityLogError::BadSchema {
                    index,
                    expected: SECURITY_EVENT_SCHEMA.to_string(),
                    found: e.schema.clone(),
                };
                assert(self.reports(index as int, err));
                return Err(err);
            }
            if !text::same(e.hash_prev.as_str(), expected_prev.as_str()) {
                let err = SecurityLogError::BrokenLink {
                    index,
                    expected: expected_prev,
                    found: e.hash_prev.clone(),
                };
                assert(self.reports(index as int, err));
                return Err(err);
            }
            let recomputed = compute_security_hash(
                e.schema.as_str(),
                e.severity,
                e.component.as_str(),
                e.event.as_str(),
                &e.vm_id,
                e.action.as_str(),
                &e.fields,
                e.hash_prev.as_str(),
            );
            if !text::same(recomputed.as_str(), e.hash_this.as_str()) {
                let err = SecurityLogError::HashMismatch {
                    index,
                    expected: recomputed,
                    found: e.hash_this.clone(),
                };
                assert(self.reports(index as int, err));
                return Err(err);
            }
            expected_prev = e.hash_this.clone();
            index = index + 1;
        }
        Ok(())
    }

    /// The log as a document.
    pub open spec fn json(self) -> JsonValue {
        JsonValue::Object(
            Seq::empty().push(("genesis_hash"@, JsonValue::Text(self.anchor()))).push(
                (
                    "events"@,
                    JsonValue::List(self.entries().map_values(|e: SecurityEvent| e.json())),
                ),
            ),
        )
    }

    /// Serialize the log to indented JSON. This never fails.
    pub fn to_json(&self) -> (r: Result<String, SecurityLogError>)
        ensures
            r matches Ok(s) && s@ == json::pretty(self.json(), Seq::empty()),
    {
        let mut items: Vec<Json> = Vec::new();
        let mut i: usize = 0;
        while i < self.events.len()
            invariant
                i <= self.entries().len(),
                items@.len() == i,
                forall|k: int| 0 <= k < i ==> (#[trigger] items@[k])@ == self.entries()[k].json(),
            decreases self.entries().len() - i,
        {
            items.push(self.events[i].to_value());
            i = i + 1;
        }
        let ghost views = items@.map_values(|j: Json| j@);
        assert(views =~= self.entries().map_values(|e: SecurityEvent| e.json()));
        let mut o = JsonObject::new();
        o.put_text("genesis_hash", self.genesis_hash.as_str());
        o.put("events", json::list_value(items));
        Ok(o.finish().to_pretty())
    }
}

// ------------------------------------------------------------------- laws

/// An event's document holds each of the committed fields.
pub proof fn security_document_pins_fields(a: SecurityEvent, b: SecurityEvent)
    requires
        a.document() == b.document(),
    ensures
        a.schema@ == b.schema@,
        a.severity == b.severity,
        a.component@ == b.component@,
        a.event@ == b.event@,
        text::opt_view(a.vm_id) == text::opt_view(b.vm_id),
        a.action@ == b.action@,
        fields_json(a.fields@) == fields_json(b.fields@),
        a.hash_prev@ == b.hash_prev@,
{
    let (p, q) = (a.document()->Object_0, b.document()->Object_0);
    assert(p[0] == q[0] && p[1] == q[1] && p[2] == q[2] && p[3] == q[3]);
    assert(p[4] == q[4] && p[5] == q[5] && p[6] == q[6] && p[7] == q[7]);
    reveal_strlit("low");
    reveal_strlit("medium");
    reveal_strlit("high");
    reveal_strlit("critical");
    let (s, t) = (a.severity.wire(), b.severity.wire());
    assert(s == t);
    assert(s.len() == t.len() && s[0] == t[0]);
}

/// Event `i` of the two logs is a SHA-384 collision.
pub open spec fn collide_at(a: SecurityLog, b: SecurityLog, i: int) -> bool {
    primitives::collide(
        chain::document_bytes(a.entries()[i].document()),
        chain::document_bytes(b.entries()[i].document()),
    )
}

/// The head hash of an intact log pins its whole history: two intact logs of
/// the same length with the same head agree on every committed field of every
/// event, unless one pair of events is a SHA-384 collision.
pub proof fn head_pins_history(a: SecurityLog, b: SecurityLog)
    requires
        a.intact(),
        b.intact(),
        a.entries().len() == b.entries().len(),
        a.head() == b.head(),
        forall|i: int| 0 <= i < a.entries().len() ==> !#[trigger] collide_at(a, b, i),
    ensures
        a.anchor() == b.anchor(),
        forall|i: int|
            0 <= i < a.entries().len() ==> (#[trigger] a.entries()[i]).document()
                == b.entries()[i].document() && a.entries()[i].hash_this@ == b.entries()[i].hash_this@,
{
    history_from(a, b, a.entries().len());
}

proof fn history_from(a: SecurityLog, b: SecurityLog, n: nat)
    requires
        a.intact(),
        b.intact(),
        n <= a.entries().len(),
        a.entries().len() == b.entries().len(),
        a.expected_previous(n as int) == b.expected_previous(n as int),
        forall|i: int| 0 <= i < a.entries().len() ==> !#[trigger] collide_at(a, b, i),
    ensures
        a.anchor() == b.anchor(),
        forall|i: int|
            0 <= i < n ==> (#[trigger] a.entries()[i]).document() == b.entries()[i].document()
                && a.entries()[i].hash_this@ == b.entries()[i].hash_this@,
    decreases n,
{
    if n > 0 {
        let k = n - 1;
        assert(a.fault_at(k) is None && b.fault_at(k) is None);
        assert(!collide_at(a, b, k));
        chain::document_hash_pins_document(a.entries()[k].document(), b.entries()[k].document());
        security_document_pins_fields(a.entries()[k], b.entries()[k]);
        history_from(a, b, k as nat);
    }
}

/// Editing a committed field of an event is found by verification, whether or
/// not the event's own hash is recomputed, as long as the head is kept (it is,
/// for every event but the last) and the old and the new event are not a
/// SHA-384 collision.
pub proof fn tampering_is_found(log: SecurityLog, i: int, e: SecurityEvent, tampered: SecurityLog)
    requires
        log.intact(),
        0 <= i < log.entries().len(),
        tampered.anchor() == log.anchor(),
        tampered.entries() == log.entries().update(i, e),
        e.document() != log.entries()[i].document(),
        i + 1 < log.entries().len() || e.hash_this@ == log.entries()[i].hash_this@,
        !collide_at(log, tampered, i),
    ensures
        !tampered.intact(),
{
    if tampered.intact() {
        let n = log.entries().len() as int;
        assert(tampered.entries().len() == n);
        assert(tampered.entries()[i] == e);
        if i + 1 < n {
            assert(tampered.entries()[n - 1] == log.entries()[n - 1]);
        }
        assert forall|k: int| 0 <= k < n implies !#[trigger] collide_at(log, tampered, k) by {
            if k != i {
                assert(tampered.entries()[k] == log.entries()[k]);
            }
        }
        head_pins_history(log, tampered);
        assert(log.entries()[i].document() == tampered.entries()[i].document());
    }
}

/// Two events that hold the same in every field.
pub open spec fn same_event(a: SecurityEvent, b: SecurityEvent) -> bool {
    &&& a.document() == b.document()
    &&& a.event_id@ == b.event_id@
    &&& a.hash_this@ == b.hash_this@
}

/// An event's stored form holds every field of it.
pub proof fn stored_event_pins_fields(a: SecurityEvent, b: SecurityEvent)
    requires
        a.json() == b.json(),
    ensures
        same_event(a, b),
{
    let (p, q) = (a.json()->Object_0, b.json()->Object_0);
    assert(p.len() == q.len());
    assert(a.vm_id is Some == b.vm_id is Some);
    assert(p[0] == q[0] && p[1] == q[1] && p[2] == q[2] && p[3] == q[3] && p[4] == q[4]);
    let n = p.len() as int;
    assert(p[n - 4] == q[n - 4] && p[n - 3] == q[n - 3]);
    assert(p[n - 2] == q[n - 2] && p[n - 1] == q[n - 1]);
    if a.vm_id is Some {
        assert(p[5] == q[5]);
    }
}

/// Storing a log loses nothing: logs with the same stored form hold the same in
/// every event, and the one is intact exactly where the other is.
pub proof fn stored_form_pins_log(a: SecurityLog, b: SecurityLog)
    requires
        json::pretty(a.json(), Seq::empty()) == json::pretty(b.json(), Seq::empty()),
    ensures
        a.anchor() == b.anchor(),
        a.entries().len() == b.entries().len(),
        forall|i: int|
            0 <= i < a.entries().len() ==> same_event(#[trigger] a.entries()[i], b.entries()[i]),
        a.head() == b.head(),
        a.intact() == b.intact(),
{
    json::indented::pretty_is_injective(a.json(), b.json());
    let (p, q) = (a.json()->Object_0, b.json()->Object_0);
    assert(p[0] == q[0] && p[1] == q[1]);
    let (s, t) = (p[1].1->List_0, q[1].1->List_0);
    assert(s == t);
    assert(s.len() == a.entries().len() && t.len() == b.entries().len());
    assert forall|i: int| 0 <= i < a.entries().len() implies same_event(
        #[trigger] a.entries()[i],
        b.entries()[i],
    ) && a.expected_previous(i) == b.expected_previous(i) by {
        assert(s[i] == a.entries()[i].json() && t[i] == b.entries()[i].json());
        stored_event_pins_fields(a.entries()[i], b.entries()[i]);
        if i > 0 {
            assert(s[i - 1] == a.entries()[i - 1].json() && t[i - 1] == b.entries()[i - 1].json());
            stored_event_pins_fields(a.entries()[i - 1], b.entries()[i - 1]);
        }
    }
    assert forall|i: int| 0 <= i < a.entries().len() implies #[trigger] a.fault_at(i)
        == b.fault_at(i) by {
        assert(same_event(a.entries()[i], b.entries()[i]));
        security_document_pins_fields(a.entries()[i], b.entries()[i]);
        assert(a.expected_previous(i) == b.expected_previous(i));
    }
    if a.intact() {
        assert forall|i: int| 0 <= i < b.entries().len() implies #[trigger] b.fault_at(i) is None by {
            assert(a.fault_at(i) is None);
        }
    }
    if b.intact() {
        assert forall|i: int| 0 <= i < a.entries().len() implies #[trigger] a.fault_at(i) is None by {
            assert(b.fault_at(i) is None);
        }
    }
    let n = a.entries().len() as int;
    if n > 0 {
        assert(same_event(a.entries()[n - 1], b.entries()[n - 1]));
    }
}

} // verus!
