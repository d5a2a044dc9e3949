//! What the audit records are for, stated over their calls.
use vstd::prelude::*;

use crate::primitives;
use crate::receipts::chain;
use crate::receipts::chain::{ChainError, Receipt, ReceiptChain};
use crate::receipts::ledger;
use crate::receipts::security;
use crate::receipts::security::{SecurityEvent, SecurityLog, SecurityLogError, Severity};
use crate::text;
use crate::text_map::TextMap;

verus! {

/// Two different byte strings have the same SHA-384.
pub open spec fn digests_collide() -> bool {
    exists|x: Seq<u8>, y: Seq<u8>|
        #![trigger primitives::sha384(x), primitives::sha384(y)]
        x != y && primitives::sha384(x) == primitives::sha384(y)
}

/// Two byte strings that collide are a collision.
pub proof fn collision_seen(x: Seq<u8>, y: Seq<u8>)
    requires
        primitives::collide(x, y),
    ensures
        digests_collide(),
{
    assert(x != y && primitives::sha384(x) == primitives::sha384(y));
}

// ------------------------------------------------------------- audit chain

/// A receipt's hash commits to each of its seven fields: two hashes that agree
/// were taken over the same fields, as long as no two byte strings share a
/// digest.
pub proof fn receipt_hash_commits_to_every_field(
    schema: (&str, &str),
    event: (&str, &str),
    subject: (&str, &str),
    decision: (&str, &str),
    policy_id: (&str, &str),
    inputs_hash: (&str, &str),
    previous: (&str, &str),
    h: (String, String),
)
    requires
        call_ensures(
            chain::compute_receipt_hash,
            (schema.0, event.0, subject.0, decision.0, policy_id.0, inputs_hash.0, previous.0),
            h.0,
        ),
        call_ensures(
            chain::compute_receipt_hash,
            (schema.1, event.1, subject.1, decision.1, policy_id.1, inputs_hash.1, previous.1),
            h.1,
        ),
        h.0@ == h.1@,
        !digests_collide(),
    ensures
        schema.0@ == schema.1@,
        event.0@ == event.1@,
        subject.0@ == subject.1@,
        decision.0@ == decision.1@,
        policy_id.0@ == policy_id.1@,
        inputs_hash.0@ == inputs_hash.1@,
        previous.0@ == previous.1@,
{
    let a = chain::receipt_document(
        schema.0@,
        event.0@,
        subject.0@,
        decision.0@,
        policy_id.0@,
        inputs_hash.0@,
        previous.0@,
    );
    let b = chain::receipt_document(
        schema.1@,
        event.1@,
        subject.1@,
        decision.1@,
        policy_id.1@,
        inputs_hash.1@,
        previous.1@,
    );
    chain::document_hash_pins_document(a, b);
    if a != b {
        collision_seen(chain::document_bytes(a), chain::document_bytes(b));
    }
    let (p, q) = (a->Object_0, b->Object_0);
    assert(p[0] == q[0] && p[1] == q[1] && p[2] == q[2] && p[3] == q[3]);
    assert(p[4] == q[4] && p[5] == q[5] && p[6] == q[6]);
}

/// Where a chain verifies, every receipt of it, wherever it stands, carries the
/// schema, points back to the hash before it, and carries the hash of its own
/// fields.
pub proof fn verified_chain_holds_everywhere(
    c: &ReceiptChain,
    i: int,
    schema: &str,
    event: &str,
    subject: &str,
    decision: &str,
    policy_id: &str,
    inputs_hash: &str,
    previous: &str,
    h: String,
)
    requires
        call_ensures(ReceiptChain::verify, (c,), Ok::<(), ChainError>(())),
        0 <= i < c.entries().len(),
        schema@ == c.entries()[i].schema@,
        event@ == c.entries()[i].event@,
        subject@ == c.entries()[i].subject@,
        decision@ == c.entries()[i].decision@,
        policy_id@ == c.entries()[i].policy_id@,
        inputs_hash@ == c.entries()[i].inputs_hash@,
        previous@ == c.entries()[i].previous_receipt_hash@,
        call_ensures(
            chain::compute_receipt_hash,
            (schema, event, subject, decision, policy_id, inputs_hash, previous),
            h,
        ),
    ensures
        c.entries()[i].schema@ == "chain.receipt.v1"@,
        c.entries()[i].receipt_hash@ == h@,
        i == 0 ==> c.entries()[i].previous_receipt_hash@ == c.anchor(),
        i > 0 ==> c.entries()[i].previous_receipt_hash@ == c.entries()[i - 1].receipt_hash@,
{
    assert(c.fault_at(i) is None);
}

/// Where a chain does not verify, the error points at a receipt that is wrong in
/// just that way, and shows what it carries.
pub proof fn chain_error_points_at_a_fault(c: &ReceiptChain, e: ChainError)
    requires
        call_ensures(ReceiptChain::verify, (c,), Err::<(), ChainError>(e)),
    ensures
        e matches ChainError::BadSchema { index, expected, found } ==> index < c.entries().len()
            && found@ == c.entries()[index as int].schema@ && expected@ == "chain.receipt.v1"@
            && found@ != expected@,
        e matches ChainError::BrokenLink { index, expected, found } ==> index < c.entries().len()
            && found@ == c.entries()[index as int].previous_receipt_hash@ && found@ != expected@
            && expected@ == (if index == 0 {
            c.anchor()
        } else {
            c.entries()[index - 1].receipt_hash@
        }),
        e matches ChainError::HashMismatch { index, expected, found } ==> index
            < c.entries().len() && found@ == c.entries()[index as int].receipt_hash@ && found@
            != expected@,
        !(e is Json),
{
    let i = choose|i: int|
        0 <= i < c.entries().len() && #[trigger] c.reports(i, e) && forall|j: int|
            0 <= j < i ==> #[trigger] c.fault_at(j) is None;
    assert(c.reports(i, e));
}

/// Two chains that both verify, are equally long and end in the same hash are the
/// same in every committed field of every receipt, as long as no two byte
/// strings share a digest. So nothing in the history can be changed unseen.
pub proof fn verified_history_is_pinned(a: &ReceiptChain, b: &ReceiptChain, i: int)
    requires
        call_ensures(ReceiptChain::verify, (a,), Ok::<(), ChainError>(())),
        call_ensures(ReceiptChain::verify, (b,), Ok::<(), ChainError>(())),
        a.entries().len() == b.entries().len(),
        0 <= i < a.entries().len(),
        a.entries().last().receipt_hash@ == b.entries().last().receipt_hash@,
        !digests_collide(),
    ensures
        a.anchor() == b.anchor(),
        a.entries()[i].event@ == b.entries()[i].event@,
        a.entries()[i].subject@ == b.entries()[i].subject@,
        a.entries()[i].decision@ == b.entries()[i].decision@,
        a.entries()[i].policy_id@ == b.entries()[i].policy_id@,
        a.entries()[i].inputs_hash@ == b.entries()[i].inputs_hash@,
        a.entries()[i].previous_receipt_hash@ == b.entries()[i].previous_receipt_hash@,
        a.entries()[i].receipt_hash@ == b.entries()[i].receipt_hash@,
{
    assert forall|k: int| 0 <= k < a.entries().len() implies !#[trigger] chain::collide_at(
        *a,
        *b,
        k,
    ) by {
        if chain::collide_at(*a, *b, k) {
            collision_seen(
                chain::document_bytes(a.entries()[k].document()),
                chain::document_bytes(b.entries()[k].document()),
            );
        }
    }
    chain::head_pins_history(*a, *b);
    chain::receipt_document_pins_fields(a.entries()[i], b.entries()[i]);
}

/// What is appended is one receipt at the end, with the fields that were given;
/// it points back to what was the last hash, and a chain that verified still
/// does.
pub proof fn appending_adds_one_linked_receipt<'a>(
    c: &'a mut ReceiptChain,
    event: &str,
    subject: &str,
    decision: &str,
    policy_id: &str,
    inputs_hash: &str,
    r: &'a Receipt,
    earlier: &ReceiptChain,
    later: &ReceiptChain,
    before: Result<(), ChainError>,
    after: Result<(), ChainError>,
    head: &str,
)
    requires
        call_ensures(
            ReceiptChain::append,
            (c, event, subject, decision, policy_id, inputs_hash),
            r,
        ),
        *earlier == *old(c),
        *later == *final(c),
        call_ensures(ReceiptChain::verify, (earlier,), before),
        call_ensures(ReceiptChain::verify, (later,), after),
        call_ensures(ReceiptChain::head_hash, (later,), head),
    ensures
        final(c).entries().len() == old(c).entries().len() + 1,
        final(c).entries().drop_last() == old(c).entries(),
        final(c).entries().last() == *r,
        final(c).anchor() == old(c).anchor(),
        r.event@ == event@,
        r.subject@ == subject@,
        r.decision@ == decision@,
        r.policy_id@ == policy_id@,
        r.inputs_hash@ == inputs_hash@,
        r.signature is None,
        r.previous_receipt_hash@ == (if old(c).entries().len() == 0 {
            old(c).anchor()
        } else {
            old(c).entries().last().receipt_hash@
        }),
        head@ == r.receipt_hash@,
        before is Ok ==> after is Ok,
{
    assert(final(c).entries().drop_last() =~= old(c).entries());
}

/// A receipt's id tells its place in the chain and shows the front of its hash.
pub proof fn receipt_id_tells_the_place<'a>(
    c: &'a mut ReceiptChain,
    event: &str,
    subject: &str,
    decision: &str,
    policy_id: &str,
    inputs_hash: &str,
    r: &'a Receipt,
)
    requires
        call_ensures(
            ReceiptChain::append,
            (c, event, subject, decision, policy_id, inputs_hash),
            r,
        ),
    ensures
        exists|place: Seq<char>|
            {
                &&& r.receipt_id@ == "rcpt-"@ + place + "-"@ + r.receipt_hash@.subrange(7, 23)
                &&& place.len() >= 6
                &&& #[trigger] text::laws::worth(place, 10) == old(c).entries().len()
            },
{
    let n = old(c).entries().len();
    let place = text::decimal_padded(n, 6);
    padded_reads_back(n, 6);
    assert(text::laws::worth(place, 10) == n);
}

proof fn padded_reads_back(n: nat, width: nat)
    ensures
        text::laws::worth(text::decimal_padded(n, width), 10) == n,
        text::decimal_padded(n, width).len() >= width,
{
    text::laws::decimal_reads_back(n);
    let d = text::decimal(n);
    if d.len() < width {
        text::laws::leading_zeros_are_worth_nothing((width - d.len()) as nat, d);
    }
}

/// A new chain is empty and verifies; its first receipt points back to nothing
/// but zeros.
pub proof fn new_chain_starts_from_zeros(
    c: ReceiptChain,
    r: &ReceiptChain,
    v: Result<(), ChainError>,
    head: &str,
    i: int,
)
    requires
        call_ensures(ReceiptChain::new, (), c),
        *r == c,
        call_ensures(ReceiptChain::verify, (r,), v),
        call_ensures(ReceiptChain::head_hash, (r,), head),
        7 <= i < head@.len(),
    ensures
        c.entries().len() == 0,
        v is Ok,
        head@ == c.anchor(),
        head@.len() == 103,
        head@[i] == '0',
        head@.take(7) == "sha384:"@,
{
    reveal_strlit("sha384:");
    assert(head@.take(7) =~= "sha384:"@);
}

// ------------------------------------------------------------ security log

/// An event's hash commits to each of its eight fields, as long as no two byte
/// strings share a digest.
pub proof fn security_hash_commits_to_every_field(
    schema: (&str, &str),
    severity: (Severity, Severity),
    component: (&str, &str),
    event: (&str, &str),
    vm_id: (&Option<String>, &Option<String>),
    action: (&str, &str),
    fields: (&TextMap<String>, &TextMap<String>),
    previous: (&str, &str),
    h: (String, String),
)
    requires
        call_ensures(
            security::compute_security_hash,
            (
                schema.0,
                severity.0,
                component.0,
                event.0,
                vm_id.0,
                action.0,
                fields.0,
                previous.0,
            ),
            h.0,
        ),
        call_ensures(
            security::compute_security_hash,
            (
                schema.1,
                severity.1,
                component.1,
                event.1,
                vm_id.1,
                action.1,
                fields.1,
                previous.1,
            ),
            h.1,
        ),
        h.0@ == h.1@,
        !digests_collide(),
    ensures
        schema.0@ == schema.1@,
        severity.0 == severity.1,
        component.0@ == component.1@,
        event.0@ == event.1@,
        vm_id.0 is Some == vm_id.1 is Some,
        vm_id.0 is Some ==> vm_id.0->0@ == vm_id.1->0@,
        action.0@ == action.1@,
        fields.0@.len() == fields.1@.len(),
        forall|i: int|
            0 <= i < fields.0@.len() ==> (#[trigger] fields.0@[i]).0 == fields.1@[i].0
                && fields.0@[i].1@ == fields.1@[i].1@,
        previous.0@ == previous.1@,
{
    let a = security::security_document(
        schema.0@,
        severity.0,
        component.0@,
        event.0@,
        text::opt_view(*vm_id.0),
        action.0@,
        fields.0@,
        previous.0@,
    );
    let b = security::security_document(
        schema.1@,
        severity.1,
        component.1@,
        event.1@,
        text::opt_view(*vm_id.1),
        action.1@,
        fields.1@,
        previous.1@,
    );
    chain::document_hash_pins_document(a, b);
    if a != b {
        collision_seen(chain::document_bytes(a), chain::document_bytes(b));
    }
    let (p, q) = (a->Object_0, b->Object_0);
    assert(p[0] == q[0] && p[1] == q[1] && p[2] == q[2] && p[3] == q[3]);
    assert(p[4] == q[4] && p[5] == q[5] && p[6] == q[6] && p[7] == q[7]);
    reveal_strlit("low");
    reveal_strlit("medium");
    reveal_strlit("high");
    reveal_strlit("critical");
    let (s, t) = (severity.0.wire(), severity.1.wire());
    assert(s == t);
    assert(s.len() == t.len() && s[0] == t[0]);
    let (m, n) = (security::fields_json(fields.0@), security::fields_json(fields.1@));
    assert(m->Object_0.len() == fields.0@.len() && n->Object_0.len() == fields.1@.len());
    assert forall|i: int| 0 <= i < fields.0@.len() implies (#[trigger] fields.0@[i]).0
        == fields.1@[i].0 && fields.0@[i].1@ == fields.1@[i].1@ by {
        assert(m->Object_0[i] == n->Object_0[i]);
    }
}

/// Where a log verifies, every event of it, wherever it stands, carries the
/// schema, points back to the hash before it, and carries the hash of its own
/// fields.
pub proof fn verified_log_holds_everywhere(
    l: &SecurityLog,
    i: int,
    schema: &str,
    component: &str,
    event: &str,
    action: &str,
    previous: &str,
    h: String,
)
    requires
        call_ensures(SecurityLog::verify, (l,), Ok::<(), SecurityLogError>(())),
        0 <= i < l.entries().len(),
        schema@ == l.entries()[i].schema@,
        component@ == l.entries()[i].component@,
        event@ == l.entries()[i].event@,
        action@ == l.entries()[i].action@,
        previous@ == l.entries()[i].hash_prev@,
        call_ensures(
            security::compute_security_hash,
            (
                schema,
                l.entries()[i].severity,
                component,
                event,
                &l.entries()[i].vm_id,
                action,
                &l.entries()[i].fields,
                previous,
            ),
            h,
        ),
    ensures
        l.entries()[i].schema@ == "chain.security_event.v1"@,
        l.entries()[i].hash_this@ == h@,
        i == 0 ==> l.entries()[i].hash_prev@ == l.anchor(),
        i > 0 ==> l.entries()[i].hash_prev@ == l.entries()[i - 1].hash_this@,
{
    assert(l.fault_at(i) is None);
}

/// Where a log does not verify, the error points at an event that is wrong in
/// just that way.
pub proof fn log_error_points_at_a_fault(l: &SecurityLog, e: SecurityLogError)
    requires
        call_ensures(SecurityLog::verify, (l,), Err::<(), SecurityLogError>(e)),
    ensures
        e matches SecurityLogError::BadSchema { index, expected, found } ==> index
            < l.entries().len() && found@ == l.entries()[index as int].schema@ && expected@
            == "chain.security_event.v1"@ && found@ != expected@,
        e matches SecurityLogError::BrokenLink { index, expected, found } ==> index
            < l.entries().len() && found@ == l.entries()[index as int].hash_prev@ && found@
            != expected@ && expected@ == (if index == 0 {
            l.anchor()
        } else {
            l.entries()[index - 1].hash_this@
        }),
        e matches SecurityLogError::HashMismatch { index, expected, found } ==> index
            < l.entries().len() && found@ == l.entries()[index as int].hash_this@ && found@
            != expected@,
        !(e is Json),
{
    let i = choose|i: int|
        0 <= i < l.entries().len() && #[trigger] l.reports(i, e) && forall|j: int|
            0 <= j < i ==> #[trigger] l.fault_at(j) is None;
    assert(l.reports(i, e));
}

/// What is appended is one event at the end, with the fields that were given; it
/// points back to what was the last hash, and a log that verified still does.
pub proof fn appending_adds_one_linked_event<'a>(
    l: &'a mut SecurityLog,
    severity: Severity,
    component: &str,
    event: &str,
    vm_id: Option<String>,
    action: &str,
    fields: TextMap<String>,
    r: &'a SecurityEvent,
    earlier: &SecurityLog,
    later: &SecurityLog,
    before: Result<(), SecurityLogError>,
    after: Result<(), SecurityLogError>,
)
    requires
        call_ensures(
            SecurityLog::append,
            (l, severity, component, event, vm_id, action, fields),
            r,
        ),
        *earlier == *old(l),
        *later == *final(l),
        call_ensures(SecurityLog::verify, (earlier,), before),
        call_ensures(SecurityLog::verify, (later,), after),
    ensures
        final(l).entries().len() == old(l).entries().len() + 1,
        final(l).entries().drop_last() == old(l).entries(),
        final(l).entries().last() == *r,
        final(l).anchor() == old(l).anchor(),
        r.severity == severity,
        r.component@ == component@,
        r.event@ == event@,
        r.vm_id == vm_id,
        r.action@ == action@,
        r.fields == fields,
        r.hash_prev@ == (if old(l).entries().len() == 0 {
            old(l).anchor()
        } else {
            old(l).entries().last().hash_this@
        }),
        before is Ok ==> after is Ok,
        exists|place: Seq<char>|
            {
                &&& r.event_id@ == "sec-"@ + place + "-"@ + r.hash_this@.subrange(7, 23)
                &&& place.len() >= 6
                &&& #[trigger] text::laws::worth(place, 10) == old(l).entries().len()
            },
{
    assert(final(l).entries().drop_last() =~= old(l).entries());
    let n = old(l).entries().len();
    let place = text::decimal_padded(n, 6);
    padded_reads_back(n, 6);
    assert(text::laws::worth(place, 10) == n);
}

/// Two logs that both verify, are equally long and end in the same hash are the
/// same in every committed field of every event, as long as no two byte strings
/// share a digest.
pub proof fn verified_events_are_pinned(a: &SecurityLog, b: &SecurityLog, i: int)
    requires
        call_ensures(SecurityLog::verify, (a,), Ok::<(), SecurityLogError>(())),
        call_ensures(SecurityLog::verify, (b,), Ok::<(), SecurityLogError>(())),
        a.entries().len() == b.entries().len(),
        0 <= i < a.entries().len(),
        a.entries().last().hash_this@ == b.entries().last().hash_this@,
        !digests_collide(),
    ensures
        a.anchor() == b.anchor(),
        a.entries()[i].severity == b.entries()[i].severity,
        a.entries()[i].component@ == b.entries()[i].component@,
        a.entries()[i].event@ == b.entries()[i].event@,
        a.entries()[i].action@ == b.entries()[i].action@,
        a.entries()[i].hash_prev@ == b.entries()[i].hash_prev@,
        a.entries()[i].hash_this@ == b.entries()[i].hash_this@,
{
    assert forall|k: int| 0 <= k < a.entries().len() implies !#[trigger] security::collide_at(
        *a,
        *b,
        k,
    ) by {
        if security::collide_at(*a, *b, k) {
            collision_seen(
                chain::document_bytes(a.entries()[k].document()),
                chain::document_bytes(b.entries()[k].document()),
            );
        }
    }
    security::head_pins_history(*a, *b);
    security::security_document_pins_fields(a.entries()[i], b.entries()[i]);
}

// ------------------------------------------------------------------ ledger

/// What stands before the first `sep` and what after it can be read off.
pub proof fn split_at_first(a: Seq<u8>, x: Seq<u8>, b: Seq<u8>, y: Seq<u8>, sep: u8)
    requires
        a + seq![sep] + x == b + seq![sep] + y,
        !a.contains(sep),
        !b.contains(sep),
    ensures
        a == b,
        x == y,
{
    let (l, r) = (a + seq![sep] + x, b + seq![sep] + y);
    assert(l[a.len() as int] == sep);
    assert(r[b.len() as int] == sep);
    if a.len() < b.len() {
        assert(b[a.len() as int] == r[a.len() as int]);
        assert(b.contains(sep));
    } else if b.len() < a.len() {
        assert(a[b.len() as int] == l[b.len() as int]);
        assert(a.contains(sep));
    }
    assert(a =~= l.take(a.len() as int));
    assert(b =~= r.take(b.len() as int));
    assert(x =~= l.skip(a.len() as int + 1));
    assert(y =~= r.skip(b.len() as int + 1));
}

/// No field of a ledger receipt holds the byte that stands between fields.
pub open spec fn fields_are_plain(r: ledger::Receipt) -> bool {
    &&& !text::utf8(r.receipt_id@).contains(0x1f)
    &&& !text::utf8(r.event@).contains(0x1f)
    &&& !text::utf8(r.subject@).contains(0x1f)
    &&& !text::utf8(r.inputs_hash@).contains(0x1f)
    &&& r.policy_id matches Some(p) ==> !text::utf8(p@).contains(0x1f)
}

proof fn labels_are_plain(d: ledger::ReceiptDecision)
    ensures
        !text::utf8(d.label()).contains(0x1f),
{
    reveal_strlit("Allow");
    reveal_strlit("Deny");
    reveal_strlit("RequireApproval");
    reveal_strlit("Observe");
    let s = d.label();
    assert(vstd::utf8::is_ascii_chars(s));
    vstd::utf8::is_ascii_chars_encode_utf8(s);
    assert(text::utf8(s) =~= Seq::new(s.len(), |i: int| s[i] as u8));
}

proof fn empty_is_plain()
    ensures
        !text::utf8(""@).contains(0x1f),
{
    reveal_strlit("");
    assert(vstd::utf8::is_ascii_chars(""@));
    vstd::utf8::is_ascii_chars_encode_utf8(""@);
}

/// Plain receipts that commit to the same bytes commit to the same parts.
#[verifier::spinoff_prover]
#[verifier::rlimit(60)]
proof fn same_parts(a: ledger::Receipt, b: ledger::Receipt)
    requires
        a.committed() == b.committed(),
        fields_are_plain(a),
        fields_are_plain(b),
    ensures
        a.schema_version == b.schema_version,
        parts_of(a) == parts_of(b),
{
    empty_is_plain();
    labels_are_plain(a.decision);
    labels_are_plain(b.decision);
    committed_fields(a);
    committed_fields(b);
    let (p, q) = (parts_of(a), parts_of(b));
    assert(a.committed().take(4) == p[0] && b.committed().take(4) == q[0]);
    four_bytes(a.schema_version);
    four_bytes(b.schema_version);
    let s = seq![p[1], p[2], p[3], p[4], p[5], p[6], p[7]];
    let t = seq![q[1], q[2], q[3], q[4], q[5], q[6], q[7]];
    rows_apart(s, t);
    assert(s[0] == t[0] && s[1] == t[1] && s[2] == t[2] && s[3] == t[3]);
    assert(s[4] == t[4] && s[5] == t[5] && s[6] == t[6]);
    assert(p =~= q);
}

/// A ledger receipt's hash commits to each of its fields, as long as no field
/// holds the separating byte and no two byte strings share a digest. An absent
/// policy or predecessor counts as an empty one.
#[verifier::spinoff_prover]
#[verifier::rlimit(60)]
pub proof fn ledger_hash_commits_to_every_field(
    a: &ledger::Receipt,
    b: &ledger::Receipt,
    ha: String,
    hb: String,
)
    requires
        call_ensures(ledger::Receipt::compute_hash, (a,), ha),
        call_ensures(ledger::Receipt::compute_hash, (b,), hb),
        ha@ == hb@,
        fields_are_plain(*a),
        fields_are_plain(*b),
        !digests_collide(),
    ensures
        a.schema_version == b.schema_version,
        a.receipt_id@ == b.receipt_id@,
        a.event@ == b.event@,
        a.subject@ == b.subject@,
        a.decision == b.decision,
        a.policy_id is Some && b.policy_id is Some ==> a.policy_id->0@ == b.policy_id->0@,
        a.policy_id is Some && b.policy_id is None ==> a.policy_id->0@.len() == 0,
        a.inputs_hash@ == b.inputs_hash@,
        a.previous_receipt_hash is Some && b.previous_receipt_hash is Some
            ==> a.previous_receipt_hash->0@ == b.previous_receipt_hash->0@,
        a.previous_receipt_hash is Some && b.previous_receipt_hash is None
            ==> a.previous_receipt_hash->0@.len() == 0,
{
    primitives::sha384_hex_keeps_digest(a.committed(), b.committed());
    if a.committed() != b.committed() {
        collision_seen(a.committed(), b.committed());
    }
    let (p, q) = (parts_of(*a), parts_of(*b));
    same_parts(*a, *b);
    assert(p[1] == q[1] && p[2] == q[2] && p[3] == q[3] && p[4] == q[4]);
    assert(p[5] == q[5] && p[6] == q[6] && p[7] == q[7]);
    text::utf8_is_injective(a.receipt_id@, b.receipt_id@);
    text::utf8_is_injective(a.event@, b.event@);
    text::utf8_is_injective(a.subject@, b.subject@);
    text::utf8_is_injective(a.decision.label(), b.decision.label());
    text::utf8_is_injective(ledger::or_empty(a.policy_id), ledger::or_empty(b.policy_id));
    text::utf8_is_injective(a.inputs_hash@, b.inputs_hash@);
    text::utf8_is_injective(
        ledger::or_empty(a.previous_receipt_hash),
        ledger::or_empty(b.previous_receipt_hash),
    );
    labels_differ(a.decision, b.decision);
    empty_has_no_character();
}

proof fn empty_has_no_character()
    ensures
        ""@.len() == 0,
{
    reveal_strlit("");
}

proof fn labels_differ(a: ledger::ReceiptDecision, b: ledger::ReceiptDecision)
    requires
        a.label() == b.label(),
    ensures
        a == b,
{
    reveal_strlit("Allow");
    reveal_strlit("Deny");
    reveal_strlit("RequireApproval");
    reveal_strlit("Observe");
    assert("Allow"@.len() == 5 && "Deny"@.len() == 4);
    assert("RequireApproval"@.len() == 15 && "Observe"@.len() == 7);
    match (a, b) {
        (ledger::ReceiptDecision::Allow, ledger::ReceiptDecision::Allow) => {},
        (ledger::ReceiptDecision::Deny, ledger::ReceiptDecision::Deny) => {},
        (ledger::ReceiptDecision::Observe, ledger::ReceiptDecision::Observe) => {},
        (
            ledger::ReceiptDecision::RequireApproval,
            ledger::ReceiptDecision::RequireApproval,
        ) => {},
        _ => {
            assert(a.label().len() != b.label().len());
        },
    }
}

/// The parts that a ledger receipt's hash is taken over.
spec fn parts_of(r: ledger::Receipt) -> Seq<Seq<u8>> {
    seq![
        text::be_bytes(r.schema_version as nat, 4),
        text::utf8(r.receipt_id@),
        text::utf8(r.event@),
        text::utf8(r.subject@),
        text::utf8(r.decision.label()),
        text::utf8(ledger::or_empty(r.policy_id)),
        text::utf8(r.inputs_hash@),
        text::utf8(ledger::or_empty(r.previous_receipt_hash)),
    ]
}

/// Parts with the separating byte between them.
spec fn row(parts: Seq<Seq<u8>>) -> Seq<u8>
    decreases parts.len(),
{
    if parts.len() == 0 {
        Seq::empty()
    } else if parts.len() == 1 {
        parts[0]
    } else {
        parts[0] + seq![0x1fu8] + row(parts.drop_first())
    }
}

proof fn rows_apart(s: Seq<Seq<u8>>, t: Seq<Seq<u8>>)
    requires
        row(s) == row(t),
        s.len() == t.len(),
        forall|i: int| 0 <= i < s.len() - 1 ==> !(#[trigger] s[i]).contains(0x1f),
        forall|i: int| 0 <= i < t.len() - 1 ==> !(#[trigger] t[i]).contains(0x1f),
    ensures
        s == t,
    decreases s.len(),
{
    if s.len() > 1 {
        let (x, y) = (s.drop_first(), t.drop_first());
        split_at_first(s[0], row(x), t[0], row(y), 0x1f);
        assert forall|i: int| 0 <= i < x.len() - 1 implies !(#[trigger] x[i]).contains(0x1f) by {
            assert(x[i] == s[i + 1]);
        }
        assert forall|i: int| 0 <= i < y.len() - 1 implies !(#[trigger] y[i]).contains(0x1f) by {
            assert(y[i] == t[i + 1]);
        }
        rows_apart(x, y);
        assert forall|i: int| 0 <= i < s.len() implies s[i] == t[i] by {
            if i > 0 {
                assert(x[i - 1] == s[i] && y[i - 1] == t[i]);
            }
        }
    }
    assert(s =~= t);
}

proof fn regrouped(l: Seq<u8>, p: Seq<u8>, t: Seq<u8>)
    ensures
        (l + seq![0x1fu8] + p) + seq![0x1fu8] + t == l + seq![0x1fu8] + (p + seq![0x1fu8] + t),
{
    assert((l + seq![0x1fu8] + p) + seq![0x1fu8] + t =~= l + seq![0x1fu8] + (p + seq![0x1fu8]
        + t));
}

proof fn committed_fields(r: ledger::Receipt)
    ensures
        ({
            let p = parts_of(r);
            &&& r.committed().take(4) == p[0]
            &&& r.committed().skip(5) == row(seq![p[1], p[2], p[3], p[4], p[5], p[6], p[7]])
        }),
{
    let p = parts_of(r);
    let z = seq![0x1fu8];
    four_bytes(r.schema_version);
    let s = seq![p[1], p[2], p[3], p[4], p[5], p[6], p[7]];
    let s1 = s.drop_first();
    let s2 = s1.drop_first();
    let s3 = s2.drop_first();
    let s4 = s3.drop_first();
    let s5 = s4.drop_first();
    let s6 = s5.drop_first();
    assert(row(s6) == p[7]);
    assert(row(s5) == p[6] + z + p[7]);
    assert(row(s4) == p[5] + z + row(s5));
    assert(row(s3) == p[4] + z + row(s4));
    assert(row(s2) == p[3] + z + row(s3));
    assert(row(s1) == p[2] + z + row(s2));
    assert(row(s) == p[1] + z + row(s1));
    let l1 = p[0] + z + p[1];
    let l2 = l1 + z + p[2];
    let l3 = l2 + z + p[3];
    let l4 = l3 + z + p[4];
    let l5 = l4 + z + p[5];
    let l6 = l5 + z + p[6];
    assert(r.committed() == l6 + z + p[7]);
    regrouped(l5, p[6], p[7]);
    regrouped(l4, p[5], row(s5));
    regrouped(l3, p[4], row(s4));
    regrouped(l2, p[3], row(s3));
    regrouped(l1, p[2], row(s2));
    regrouped(p[0], p[1], row(s1));
    assert(r.committed() == p[0] + z + row(s));
    assert(r.committed().take(4) =~= p[0]);
    assert(r.committed().skip(5) =~= row(s));
}

proof fn four_bytes(n: u32)
    ensures
        text::be_bytes(n as nat, 4).len() == 4,
        text::laws::bytes_worth(text::be_bytes(n as nat, 4)) == n,
{
    vstd::arithmetic::power::lemma_pow0(256);
    reveal_with_fuel(vstd::arithmetic::power::pow, 5);
    assert(vstd::arithmetic::power::pow(256, 4) == 4294967296);
    text::laws::byte_by_byte(n as nat, 4);
}

/// A receipt is taken exactly where it carries the hash of its fields and points
/// back to the last receipt (the first one to nothing); a refused receipt changes
/// nothing, a taken one stands at the end.
pub proof fn ledger_takes_only_linked_receipts(
    l: &mut ledger::ReceiptChain,
    receipt: ledger::Receipt,
    r: bool,
    h: String,
)
    requires
        call_ensures(ledger::ReceiptChain::push, (l, receipt), r),
        call_ensures(ledger::Receipt::compute_hash, (&receipt,), h),
    ensures
        r <==> {
            &&& receipt.receipt_hash@ == h@
            &&& old(l).receipts@.len() == 0 ==> receipt.previous_receipt_hash is None
            &&& old(l).receipts@.len() > 0 ==> receipt.previous_receipt_hash is Some
                && receipt.previous_receipt_hash->0@ == old(l).receipts@.last().receipt_hash@
        },
        r ==> final(l).receipts@.len() == old(l).receipts@.len() + 1 && final(l).receipts@.last()
            == receipt && final(l).receipts@.drop_last() == old(l).receipts@,
        !r ==> final(l).receipts@ == old(l).receipts@,
{
    if r {
        assert(final(l).receipts@.drop_last() =~= old(l).receipts@);
    }
}

/// Where a ledger verifies, every receipt of it carries the hash of its fields and
/// points back to the one before, the first one to nothing; and a ledger whose
/// receipts all do so verifies.
pub proof fn verified_ledger_holds_everywhere(l: &ledger::ReceiptChain, r: bool, i: int, h: String)
    requires
        call_ensures(ledger::ReceiptChain::verify, (l,), r),
        0 <= i < l.receipts@.len(),
        call_ensures(ledger::Receipt::compute_hash, (&l.receipts@[i],), h),
    ensures
        r ==> l.receipts@[i].receipt_hash@ == h@,
        r && i == 0 ==> l.receipts@[i].previous_receipt_hash is None,
        r && i > 0 ==> l.receipts@[i].previous_receipt_hash is Some
            && l.receipts@[i].previous_receipt_hash->0@ == l.receipts@[i - 1].receipt_hash@,
        l.receipts@[i].receipt_hash@ != h@ ==> !r,
{
    if r {
        assert(l.holds_at(i));
    }
}

/// A receipt made without a signature carries the hash of its fields, and signing
/// it changes neither the fields nor what they hash to.
pub proof fn signing_leaves_the_hash_alone(
    a: ledger::Receipt,
    s: ledger::ReceiptSignature,
    b: ledger::Receipt,
    ha: String,
    hb: String,
    ok: bool,
)
    requires
        call_ensures(ledger::Receipt::signed, (a, s), b),
        call_ensures(ledger::Receipt::compute_hash, (&a,), ha),
        call_ensures(ledger::Receipt::compute_hash, (&b,), hb),
        call_ensures(ledger::Receipt::verify_hash, (&b,), ok),
    ensures
        ha@ == hb@,
        b.signature == Some(s),
        b.receipt_hash == a.receipt_hash,
        b.receipt_id == a.receipt_id && b.event == a.event && b.subject == a.subject,
        ok <==> a.receipt_hash@ == ha@,
{
}

/// The last hash of a ledger is that of its last receipt, and an empty ledger has
/// none; so an unsigned receipt that is made with it is taken.
pub proof fn next_receipt_is_linked(
    l: &mut ledger::ReceiptChain,
    before: &ledger::ReceiptChain,
    last: Option<String>,
    id: &str,
    event: &str,
    subject: &str,
    decision: ledger::ReceiptDecision,
    policy: Option<String>,
    inputs: &str,
    receipt: ledger::Receipt,
    taken: bool,
)
    requires
        *before == *old(l),
        call_ensures(ledger::ReceiptChain::last_hash, (before,), last),
        call_ensures(
            ledger::Receipt::unsigned,
            (id, event, subject, decision, policy, inputs, last),
            receipt,
        ),
        call_ensures(ledger::ReceiptChain::push, (l, receipt), taken),
    ensures
        taken,
        last is None <==> old(l).receipts@.len() == 0,
        last matches Some(h) ==> h@ == old(l).receipts@.last().receipt_hash@,
        receipt.receipt_id@ == id@ && receipt.event@ == event@ && receipt.subject@ == subject@,
        receipt.decision == decision && receipt.policy_id == policy,
        receipt.inputs_hash@ == inputs@ && receipt.signature is None,
{
}

/// No two decisions have one name.
pub proof fn decision_names_tell_apart(
    a: ledger::ReceiptDecision,
    b: ledger::ReceiptDecision,
    x: &'static str,
    y: &'static str,
)
    requires
        call_ensures(ledger::ReceiptDecision::name, (a,), x),
        call_ensures(ledger::ReceiptDecision::name, (b,), y),
        x@ == y@,
    ensures
        a == b,
{
    reveal_strlit("Allow");
    reveal_strlit("Deny");
    reveal_strlit("RequireApproval");
    reveal_strlit("Observe");
    assert("Allow"@.len() == 5 && "Deny"@.len() == 4);
    assert("RequireApproval"@.len() == 15 && "Observe"@.len() == 7);
}

} // verus!
