//! What attestation and key release are for, stated over their calls.
use vstd::prelude::*;

use crate::attest::kms;
use crate::attest::kms::{
    AttestedUnlockEvidence, KeyReleaseDecision, KeyReleaseRequest, KmsPolicy, KmsSimulator,
    SuiteBinding, SuitedKeyReleaseRequest,
};
use crate::attest::pcr;
use crate::attest::pcr::PcrBank;
use crate::attest::secret::SecretHandle;
use crate::json;
use crate::primitives;
use crate::receipts;
use crate::receipts::chain;
use crate::receipts::chain::ReceiptChain;
use crate::text;

verus! {

// --------------------------------------------------------------- registers

/// Every register of `want` is in `have`, with the same digest.
pub open spec fn holds_all(have: Map<u8, Seq<char>>, want: Map<u8, Seq<char>>) -> bool {
    forall|k: u8| #[trigger] want.contains_key(k) ==> have.contains_key(k) && have[k] == want[k]
}

/// A bank matches where it holds everything expected.
pub proof fn match_is_holding_all(have: Map<u8, Seq<char>>, want: Map<u8, Seq<char>>)
    ensures
        pcr::all_match(have, want) == holds_all(have, want),
{
    if pcr::all_match(have, want) {
        assert forall|k: u8| #[trigger] want.contains_key(k) implies have.contains_key(k)
            && have[k] == want[k] by {
            assert(!pcr::mismatch_at(have, want, k));
        }
    }
    if holds_all(have, want) {
        assert forall|k: u8| !#[trigger] pcr::mismatch_at(have, want, k) by {
            if want.contains_key(k) {
                assert(have.contains_key(k) && have[k] == want[k]);
            }
        }
    }
}

/// Every expected register counts: one that is missing or different is reported,
/// no register below it is, and nothing is reported only where every expected
/// register is there with its digest.
pub proof fn every_expected_register_counts(
    have: &PcrBank,
    want: &PcrBank,
    r: Option<u8>,
    ok: bool,
    k: u8,
)
    requires
        call_ensures(PcrBank::first_mismatch, (have, want), r),
        call_ensures(PcrBank::satisfies, (have, want), ok),
    ensures
        r is None ==> want@.contains_key(k) ==> have@.contains_key(k) && have@[k] == want@[k],
        r matches Some(m) ==> want@.contains_key(m) && !(have@.contains_key(m) && have@[m]
            == want@[m]),
        r matches Some(m) ==> k < m && want@.contains_key(k) ==> have@.contains_key(k) && have@[k]
            == want@[k],
        ok <==> r is None,
        ok <==> holds_all(have@, want@),
{
    match_is_holding_all(have@, want@);
    match r {
        Some(m) => {
            assert(pcr::mismatch_at(have@, want@, m));
            if k < m {
                assert(!pcr::mismatch_at(have@, want@, k));
            }
        },
        None => {
            assert(!pcr::mismatch_at(have@, want@, k));
        },
    }
}

/// A bank gives back the digest that was set last for a register, and setting one
/// register leaves the others alone.
pub proof fn bank_gives_back_what_was_set<'a, 'b>(
    b: &'a mut PcrBank,
    k: u8,
    digest: &str,
    r: &'a mut PcrBank,
    earlier: &'b PcrBank,
    later: &'b PcrBank,
    j: u8,
    before: Option<&'b str>,
    after: Option<&'b str>,
)
    requires
        call_ensures(PcrBank::set, (b, k, digest), r),
        *earlier == *old(b),
        *later == *old(r),
        call_ensures(PcrBank::get, (earlier, j), before),
        call_ensures(PcrBank::get, (later, j), after),
    ensures
        j == k ==> after is Some && after->0@ == digest@,
        j != k ==> after is Some == before is Some,
        j != k && before is Some ==> after->0@ == before->0@,
{
}

proof fn bank_document_pins_bank(a: Map<u8, Seq<char>>, b: Map<u8, Seq<char>>, k: u8)
    requires
        pcr::bank_json(a) == pcr::bank_json(b),
    ensures
        a.contains_key(k) ==> b.contains_key(k) && a[k] == b[k],
{
    let (s, t) = (pcr::registers_of(a), pcr::registers_of(b));
    pcr::registers_ascend(a, 256);
    pcr::registers_ascend(b, 256);
    let (p, q) = (pcr::bank_json(a)->Object_0, pcr::bank_json(b)->Object_0);
    assert(p.len() == s.len() && q.len() == t.len());
    if a.contains_key(k) {
        let i = choose|i: int| 0 <= i < s.len() && s[i] == (k, a[k]);
        assert(p[i] == (text::decimal(s[i].0 as nat), json::JsonValue::Text(s[i].1)));
        assert(q[i] == (text::decimal(t[i].0 as nat), json::JsonValue::Text(t[i].1)));
        json::unambiguous::decimal_is_injective(s[i].0 as nat, t[i].0 as nat);
        assert(t[i] == (k, a[k]));
        assert(b.contains_key(t[i].0));
    }
}

/// A request's hash commits to every field of it, each register included, as long
/// as no two byte strings share a digest.
pub proof fn request_hash_commits_to_every_field(
    a: &KeyReleaseRequest,
    b: &KeyReleaseRequest,
    ha: String,
    hb: String,
    k: u8,
)
    requires
        call_ensures(KeyReleaseRequest::inputs_hash, (a,), ha),
        call_ensures(KeyReleaseRequest::inputs_hash, (b,), hb),
        ha@ == hb@,
        !receipts::laws::digests_collide(),
    ensures
        a.request_type@ == b.request_type@,
        a.device_id@ == b.device_id@,
        a.vm_id@ == b.vm_id@,
        a.capsule_hash@ == b.capsule_hash@,
        a.boot_policy_hash@ == b.boot_policy_hash@,
        a.pcrs@.contains_key(k) == b.pcrs@.contains_key(k),
        a.pcrs@.contains_key(k) ==> a.pcrs@[k] == b.pcrs@[k],
        a.hypervisor_version == b.hypervisor_version,
        a.nonce@ == b.nonce@,
{
    chain::document_hash_pins_document(a.json(), b.json());
    if a.json() != b.json() {
        receipts::laws::collision_seen(
            chain::document_bytes(a.json()),
            chain::document_bytes(b.json()),
        );
    }
    let (p, q) = (a.json()->Object_0, b.json()->Object_0);
    assert(p[0] == q[0] && p[1] == q[1] && p[2] == q[2] && p[3] == q[3]);
    assert(p[4] == q[4] && p[5] == q[5] && p[6] == q[6] && p[7] == q[7]);
    bank_document_pins_bank(a.pcrs@, b.pcrs@, k);
    bank_document_pins_bank(b.pcrs@, a.pcrs@, k);
}

// ----------------------------------------------------------------- release

/// The capsule is one of those that the policy lists.
pub open spec fn on_the_list(policy: KmsPolicy, capsule_hash: Seq<char>) -> bool {
    exists|i: int|
        0 <= i < policy.allowed_capsule_hashes@.len() && (
        #[trigger] policy.allowed_capsule_hashes@[i])@ == capsule_hash
}

/// A key is released exactly where the boot policy is the pinned one, every
/// expected register is there with its digest, the capsule is on the list and the
/// hypervisor is no older than the minimum.
pub proof fn key_is_released_only_on_full_attestation(
    kms: &KmsSimulator,
    req: &KeyReleaseRequest,
    c: &mut ReceiptChain,
    r: KeyReleaseDecision,
)
    requires
        call_ensures(KmsSimulator::evaluate, (kms, req, c), r),
    ensures
        r is Allow ==> req.boot_policy_hash@ == kms.policy.expected_boot_policy_hash@,
        r is Allow ==> forall|k: u8| #[trigger]
            kms.policy.expected_pcrs@.contains_key(k) ==> req.pcrs@.contains_key(k)
                && req.pcrs@[k] == kms.policy.expected_pcrs@[k],
        r is Allow ==> on_the_list(kms.policy, req.capsule_hash@),
        r is Allow ==> kms.policy.min_hypervisor_version <= req.hypervisor_version,
        r is Deny ==> req.boot_policy_hash@ != kms.policy.expected_boot_policy_hash@ || !holds_all(
            req.pcrs@,
            kms.policy.expected_pcrs@,
        ) || !on_the_list(kms.policy, req.capsule_hash@) || req.hypervisor_version
            < kms.policy.min_hypervisor_version,
{
    match_is_holding_all(req.pcrs@, kms.policy.expected_pcrs@);
    text::laws::member_stands_at_some_place(
        kms.policy.allowed_capsule_hashes@,
        req.capsule_hash@,
    );
}

/// A denial names the first gate that failed: the boot policy, then the lowest
/// register that does not match, then the capsule, then the version. Asking for
/// the reason alone gives the same.
pub proof fn denial_names_the_first_failed_gate(
    kms: &KmsSimulator,
    req: &KeyReleaseRequest,
    c: &mut ReceiptChain,
    r: KeyReleaseDecision,
    why: Option<String>,
    k: u8,
)
    requires
        call_ensures(KmsSimulator::evaluate, (kms, req, c), r),
        call_ensures(KmsSimulator::deny_reason_for, (kms, req), why),
    ensures
        why is None <==> r is Allow,
        r is Deny ==> why is Some && why->0@ == r->reason@,
        req.boot_policy_hash@ != kms.policy.expected_boot_policy_hash@ ==> r is Deny && r->reason@
            == "boot_policy_hash_mismatch: expected "@ + kms.policy.expected_boot_policy_hash@
            + ", got "@ + req.boot_policy_hash@,
        req.boot_policy_hash@ == kms.policy.expected_boot_policy_hash@
            && kms.policy.expected_pcrs@.contains_key(k) && !(req.pcrs@.contains_key(k)
            && req.pcrs@[k] == kms.policy.expected_pcrs@[k]) && (forall|j: u8|
            j < k && #[trigger] kms.policy.expected_pcrs@.contains_key(j)
                ==> req.pcrs@.contains_key(j) && req.pcrs@[j] == kms.policy.expected_pcrs@[j])
            ==> r is Deny && exists|shown: Seq<char>|
            r->reason@ == "pcr_mismatch: pcr"@ + shown && text::laws::numeral(shown, 10)
                && #[trigger] text::laws::worth(shown, 10) == k,
        req.boot_policy_hash@ == kms.policy.expected_boot_policy_hash@ && holds_all(
            req.pcrs@,
            kms.policy.expected_pcrs@,
        ) && !on_the_list(kms.policy, req.capsule_hash@) ==> r is Deny && r->reason@
            == "capsule_not_allowlisted: "@ + req.capsule_hash@,
{
    let (have, want) = (req.pcrs@, kms.policy.expected_pcrs@);
    match_is_holding_all(have, want);
    text::laws::member_stands_at_some_place(
        kms.policy.allowed_capsule_hashes@,
        req.capsule_hash@,
    );
    if want.contains_key(k) && !(have.contains_key(k) && have[k] == want[k]) && (forall|j: u8|
        j < k && #[trigger] want.contains_key(j) ==> have.contains_key(j) && have[j] == want[j]) {
        assert(pcr::mismatch_at(have, want, k));
        assert forall|j: u8| j < k implies !#[trigger] pcr::mismatch_at(have, want, j) by {
            if want.contains_key(j) {
                assert(have.contains_key(j) && have[j] == want[j]);
            }
        }
        assert(pcr::is_first_mismatch(have, want, k));
        let m = choose|m: u8| pcr::is_first_mismatch(have, want, m);
        assert(pcr::is_first_mismatch(have, want, m));
        assert(m == k) by {
            if m < k {
                assert(!pcr::mismatch_at(have, want, m));
            } else if k < m {
                assert(!pcr::mismatch_at(have, want, k));
            }
        }
        let shown = text::decimal(k as nat);
        text::laws::decimal_reads_back(k as nat);
        assert(text::laws::worth(shown, 10) == k);
    }
}

/// Every evaluation leaves one receipt at the end of the chain, which says what
/// was decided, for which machine, under which policy, and on which request.
pub proof fn release_is_on_the_record(
    kms: &KmsSimulator,
    req: &KeyReleaseRequest,
    c: &mut ReceiptChain,
    r: KeyReleaseDecision,
    h: String,
)
    requires
        call_ensures(KmsSimulator::evaluate, (kms, req, c), r),
        call_ensures(KeyReleaseRequest::inputs_hash, (req,), h),
    ensures
        final(c).entries().len() == old(c).entries().len() + 1,
        final(c).entries().drop_last() == old(c).entries(),
        final(c).anchor() == old(c).anchor(),
        final(c).entries().last().event@ == "key_release"@,
        final(c).entries().last().subject@ == req.vm_id@,
        final(c).entries().last().policy_id@ == "pol-kms-attested-unlock"@,
        final(c).entries().last().inputs_hash@ == h@,
        r is Allow ==> final(c).entries().last().decision@ == "allow"@,
        r is Deny ==> final(c).entries().last().decision@ == "deny"@,
        old(c).intact() ==> final(c).intact(),
{
    assert(final(c).entries().drop_last() =~= old(c).entries());
}

/// The suite that a request carries decides nothing: the answer is the one to the
/// request without it.
pub proof fn suite_does_not_change_the_decision(
    kms: &KmsSimulator,
    plain: &KeyReleaseRequest,
    suited: &SuitedKeyReleaseRequest,
    c: &mut ReceiptChain,
    d: &mut ReceiptChain,
    r: KeyReleaseDecision,
    q: KeyReleaseDecision,
)
    requires
        suited.request == *plain,
        call_ensures(KmsSimulator::evaluate, (kms, plain, c), r),
        call_ensures(KmsSimulator::evaluate_suited, (kms, suited, d), q),
    ensures
        r is Allow <==> q is Allow,
        r is Deny ==> r->reason@ == q->reason@,
        r is Allow ==> r->wrapped_vmk@ == q->wrapped_vmk@,
{
}

proof fn split_at_zero(a: Seq<u8>, x: Seq<u8>, b: Seq<u8>, y: Seq<u8>)
    requires
        a + seq![0u8] + x == b + seq![0u8] + y,
        !a.contains(0),
        !b.contains(0),
    ensures
        a == b,
        x == y,
{
    receipts::laws::split_at_first(a, x, b, y, 0);
}

/// The released key is bound to the device, the machine, the capsule and the
/// pinned boot policy: keys that agree were released for the same four, as long
/// as none of them holds a zero byte and no two byte strings share a digest.
pub proof fn released_key_is_bound_to_the_request(
    ka: &KmsSimulator,
    kb: &KmsSimulator,
    a: &KeyReleaseRequest,
    b: &KeyReleaseRequest,
    x: SecretHandle,
    y: SecretHandle,
)
    requires
        call_ensures(KmsSimulator::simulated_wrapped_vmk, (ka, a), x),
        call_ensures(KmsSimulator::simulated_wrapped_vmk, (kb, b), y),
        x@ == y@,
        !text::utf8(a.device_id@).contains(0),
        !text::utf8(b.device_id@).contains(0),
        !text::utf8(a.vm_id@).contains(0),
        !text::utf8(b.vm_id@).contains(0),
        !text::utf8(a.capsule_hash@).contains(0),
        !text::utf8(b.capsule_hash@).contains(0),
        !receipts::laws::digests_collide(),
    ensures
        x@.len() == 48,
        a.device_id@ == b.device_id@,
        a.vm_id@ == b.vm_id@,
        a.capsule_hash@ == b.capsule_hash@,
        ka.policy.expected_boot_policy_hash@ == kb.policy.expected_boot_policy_hash@,
{
    let (p, q) = (ka.policy.vmk_input(*a), kb.policy.vmk_input(*b));
    if p != q {
        receipts::laws::collision_seen(p, q);
    }
    let z = seq![0u8];
    let word = text::utf8("vmk-wrap"@);
    let (pa, pb) = (
        text::utf8(ka.policy.expected_boot_policy_hash@),
        text::utf8(kb.policy.expected_boot_policy_hash@),
    );
    let (ca, cb) = (text::utf8(a.capsule_hash@), text::utf8(b.capsule_hash@));
    let (va, vb) = (text::utf8(a.vm_id@), text::utf8(b.vm_id@));
    let (da, db) = (text::utf8(a.device_id@), text::utf8(b.device_id@));
    let (a3, b3) = (ca + z + pa, cb + z + pb);
    let (a2, b2) = (va + z + a3, vb + z + b3);
    let (a1, b1) = (da + z + a2, db + z + b2);
    assert(p =~= word + z + a1);
    assert(q =~= word + z + b1);
    assert(a1 =~= p.skip(word.len() as int + 1));
    assert(b1 =~= q.skip(word.len() as int + 1));
    split_at_zero(da, a2, db, b2);
    split_at_zero(va, a3, vb, b3);
    split_at_zero(ca, pa, cb, pb);
    text::utf8_is_injective(a.device_id@, b.device_id@);
    text::utf8_is_injective(a.vm_id@, b.vm_id@);
    text::utf8_is_injective(a.capsule_hash@, b.capsule_hash@);
    text::utf8_is_injective(
        ka.policy.expected_boot_policy_hash@,
        kb.policy.expected_boot_policy_hash@,
    );
}

/// What an evaluation releases is the request's wrapped key.
pub proof fn released_key_is_the_wrapped_key(
    kms: &KmsSimulator,
    req: &KeyReleaseRequest,
    c: &mut ReceiptChain,
    r: KeyReleaseDecision,
    k: SecretHandle,
)
    requires
        call_ensures(KmsSimulator::evaluate, (kms, req, c), r),
        call_ensures(KmsSimulator::simulated_wrapped_vmk, (kms, req), k),
        r is Allow,
    ensures
        r->wrapped_vmk@ == k@,
        r->wrapped_vmk@.len() == 48,
{
}

/// Evidence is given of releases only, and shows each gate as it is.
pub proof fn evidence_shows_each_gate(
    kms: &KmsSimulator,
    req: &KeyReleaseRequest,
    suite: Option<&SuiteBinding>,
    d: &KeyReleaseDecision,
    r: Option<AttestedUnlockEvidence>,
    h: String,
)
    requires
        call_ensures(KmsSimulator::attested_unlock_evidence, (kms, req, suite, d), r),
        call_ensures(KeyReleaseRequest::inputs_hash, (req,), h),
    ensures
        r is Some <==> *d is Allow,
        r matches Some(e) ==> {
            &&& e.pcr_match <==> holds_all(req.pcrs@, kms.policy.expected_pcrs@)
            &&& e.boot_policy_match <==> req.boot_policy_hash@
                == kms.policy.expected_boot_policy_hash@
            &&& e.capsule_allowlisted <==> on_the_list(kms.policy, req.capsule_hash@)
            &&& e.hypervisor_version_ok <==> kms.policy.min_hypervisor_version
                <= req.hypervisor_version
            &&& e.inputs_hash@ == h@
            &&& e.device_id@ == req.device_id@
            &&& e.vm_id@ == req.vm_id@
            &&& e.suite is Some == suite is Some
            &&& suite is Some ==> e.suite->0 == *suite->0
        },
{
    match_is_holding_all(req.pcrs@, kms.policy.expected_pcrs@);
    text::laws::member_stands_at_some_place(
        kms.policy.allowed_capsule_hashes@,
        req.capsule_hash@,
    );
}

/// Evidence of a release that went through every gate shows no gate open: a
/// request that was allowed has all four marks.
pub proof fn evidence_of_a_release_is_clean(
    kms: &KmsSimulator,
    req: &KeyReleaseRequest,
    c: &mut ReceiptChain,
    suite: Option<&SuiteBinding>,
    d: &KeyReleaseDecision,
    r: Option<AttestedUnlockEvidence>,
)
    requires
        call_ensures(KmsSimulator::evaluate, (kms, req, c), *d),
        call_ensures(KmsSimulator::attested_unlock_evidence, (kms, req, suite, d), r),
        *d is Allow,
    ensures
        r is Some,
        r->0.pcr_match && r->0.boot_policy_match && r->0.capsule_allowlisted
            && r->0.hypervisor_version_ok,
{
}

/// Overwriting a secret leaves as many zeros.
pub proof fn overwritten_secret_is_zeros(s: &mut SecretHandle, u: (), i: int)
    requires
        call_ensures(SecretHandle::zeroize, (s,), u),
        0 <= i < old(s)@.len(),
    ensures
        final(s)@.len() == old(s)@.len(),
        final(s)@[i] == 0,
{
}

/// A bank lists exactly the registers it holds, in ascending order, each with its
/// digest.
pub proof fn bank_lists_what_it_holds(b: &PcrBank, r: Vec<(u8, &str)>, i: int, j: int, k: u8)
    requires
        call_ensures(PcrBank::iter, (b,), r),
    ensures
        0 <= i < r@.len() ==> b@.contains_key(r@[i].0) && b@[r@[i].0] == r@[i].1@,
        0 <= i < j < r@.len() ==> r@[i].0 < r@[j].0,
        b@.contains_key(k) ==> exists|n: int|
            0 <= n < r@.len() && (#[trigger] r@[n]).0 == k && r@[n].1@ == b@[k],
{
    let s = r@.map_values(|e: (u8, &str)| (e.0, e.1@));
    assert(s == pcr::registers_of(b@));
    assert(s.len() == r@.len());
    if 0 <= i < r@.len() {
        assert(s[i] == (r@[i].0, r@[i].1@));
        listed_is_held(b@, 256, i);
    }
    if 0 <= i < j < r@.len() {
        assert(s[j] == (r@[j].0, r@[j].1@));
        listed_ascending(b@, 256, i, j);
    }
    if b@.contains_key(k) {
        let n = held_is_listed(b@, 256, k);
        assert(s[n] == (r@[n].0, r@[n].1@));
    }
}

proof fn listed_is_held(m: Map<u8, Seq<char>>, n: nat, i: int)
    requires
        n <= 256,
        0 <= i < pcr::registers_below(m, n).len(),
    ensures
        pcr::registers_below(m, n)[i].0 < n,
        m.contains_key(pcr::registers_below(m, n)[i].0),
        m[pcr::registers_below(m, n)[i].0] == pcr::registers_below(m, n)[i].1,
    decreases n,
{
    if i < pcr::registers_below(m, (n - 1) as nat).len() {
        listed_is_held(m, (n - 1) as nat, i);
    }
}

proof fn listed_ascending(m: Map<u8, Seq<char>>, n: nat, i: int, j: int)
    requires
        n <= 256,
        0 <= i < j < pcr::registers_below(m, n).len(),
    ensures
        pcr::registers_below(m, n)[i].0 < pcr::registers_below(m, n)[j].0,
    decreases n,
{
    let before = pcr::registers_below(m, (n - 1) as nat);
    listed_is_held(m, (n - 1) as nat, i);
    if j < before.len() {
        listed_ascending(m, (n - 1) as nat, i, j);
    }
}

proof fn held_is_listed(m: Map<u8, Seq<char>>, n: nat, k: u8) -> (i: int)
    requires
        n <= 256,
        k < n,
        m.contains_key(k),
    ensures
        0 <= i < pcr::registers_below(m, n).len(),
        pcr::registers_below(m, n)[i] == (k, m[k]),
    decreases n,
{
    let before = pcr::registers_below(m, (n - 1) as nat);
    if k == n - 1 {
        before.len() as int
    } else {
        held_is_listed(m, (n - 1) as nat, k)
    }
}

/// A request for an attested unlock carries what it was given, with the three
/// registers under their numbers and no other.
pub proof fn unlock_request_carries_its_registers(
    device: &str,
    vm: &str,
    capsule: &str,
    boot: &str,
    p0: &str,
    p7: &str,
    p11: &str,
    version: u64,
    nonce: &str,
    r: KeyReleaseRequest,
    k: u8,
    got: Option<&str>,
)
    requires
        call_ensures(
            KeyReleaseRequest::attested_unlock,
            (device, vm, capsule, boot, p0, p7, p11, version, nonce),
            r,
        ),
        call_ensures(PcrBank::get, (&r.pcrs, k), got),
    ensures
        k == 0 ==> got is Some && got->0@ == p0@,
        k == 7 ==> got is Some && got->0@ == p7@,
        k == 11 ==> got is Some && got->0@ == p11@,
        k != 0 && k != 7 && k != 11 ==> got is None,
        r.device_id@ == device@ && r.vm_id@ == vm@ && r.capsule_hash@ == capsule@,
        r.boot_policy_hash@ == boot@ && r.hypervisor_version == version && r.nonce@ == nonce@,
{
}

/// The evidence of a request with a suite is that of the request itself, with the
/// suite added.
pub proof fn suited_evidence_is_plain_evidence_with_the_suite(
    kms: &KmsSimulator,
    req: KeyReleaseRequest,
    suite: SuiteBinding,
    suited: SuitedKeyReleaseRequest,
    d: &KeyReleaseDecision,
    a: Option<AttestedUnlockEvidence>,
    b: Option<AttestedUnlockEvidence>,
)
    requires
        call_ensures(KeyReleaseRequest::with_suite, (req, suite), suited),
        call_ensures(KmsSimulator::attested_unlock_evidence, (kms, &req, Some(&suite), d), a),
        call_ensures(KmsSimulator::attested_unlock_evidence_suited, (kms, &suited, d), b),
    ensures
        a is Some <==> b is Some,
        b matches Some(e) ==> {
            &&& e.suite == Some(suite)
            &&& e.device_id == a->0.device_id && e.vm_id == a->0.vm_id
            &&& e.pcr_match == a->0.pcr_match
            &&& e.boot_policy_match == a->0.boot_policy_match
            &&& e.capsule_allowlisted == a->0.capsule_allowlisted
            &&& e.hypervisor_version_ok == a->0.hypervisor_version_ok
            &&& e.inputs_hash@ == a->0.inputs_hash@
        },
{
}

/// A decision either allows or gives a reason.
pub proof fn decision_allows_or_says_why<'a>(
    d: &'a KeyReleaseDecision,
    allow: bool,
    reason: Option<&'a str>,
)
    requires
        call_ensures(KeyReleaseDecision::is_allow, (d,), allow),
        call_ensures(KeyReleaseDecision::deny_reason, (d,), reason),
    ensures
        allow <==> reason is None,
        *d matches KeyReleaseDecision::Deny { reason: why } ==> reason is Some && reason->0@ == why@,
{
}

/// A hypervisor that is too old is told its version and the least that is taken,
/// where nothing else is wrong.
pub proof fn old_hypervisor_is_told_both_versions(
    kms: &KmsSimulator,
    req: &KeyReleaseRequest,
    why: Option<String>,
    got: String,
    least: String,
)
    requires
        call_ensures(KmsSimulator::deny_reason_for, (kms, req), why),
        call_ensures(text::decimal_text, (req.hypervisor_version,), got),
        call_ensures(text::decimal_text, (kms.policy.min_hypervisor_version,), least),
        req.boot_policy_hash@ == kms.policy.expected_boot_policy_hash@,
        holds_all(req.pcrs@, kms.policy.expected_pcrs@),
        on_the_list(kms.policy, req.capsule_hash@),
    ensures
        why is Some <==> req.hypervisor_version < kms.policy.min_hypervisor_version,
        why matches Some(t) ==> t@ == "hypervisor_version_below_minimum: "@ + got@ + " < "@
            + least@,
{
    match_is_holding_all(req.pcrs@, kms.policy.expected_pcrs@);
    text::laws::member_stands_at_some_place(
        kms.policy.allowed_capsule_hashes@,
        req.capsule_hash@,
    );
}

/// The receipt that comes with a released key is the one that the release put last
/// on the chain.
pub proof fn released_key_comes_with_its_receipt(
    kms: &KmsSimulator,
    req: &KeyReleaseRequest,
    c: &mut ReceiptChain,
    r: KeyReleaseDecision,
    v: json::JsonValue,
)
    requires
        call_ensures(KmsSimulator::evaluate, (kms, req, c), r),
        r is Allow,
        r->receipt_json@ == json::pretty(v, Seq::empty()),
    ensures
        ({
            let last = final(c).entries().last();
            &&& json::laws::has_member(
                v,
                "receipt_id"@,
                json::JsonValue::Text(last.receipt_id@),
            )
            &&& json::laws::has_member(
                v,
                "receipt_hash"@,
                json::JsonValue::Text(last.receipt_hash@),
            )
            &&& json::laws::has_member(
                v,
                "previous_receipt_hash"@,
                json::JsonValue::Text(last.previous_receipt_hash@),
            )
            &&& json::laws::has_member(v, "decision"@, json::JsonValue::Text(last.decision@))
            &&& json::laws::has_member(v, "event"@, json::JsonValue::Text(last.event@))
            &&& json::laws::has_member(v, "subject"@, json::JsonValue::Text(last.subject@))
        }),
{
    let last = final(c).entries().last();
    json::indented::pretty_is_injective(v, last.json());
    let o = v->Object_0;
    assert(o[1].0 == "receipt_id"@ && o[2].0 == "event"@ && o[3].0 == "subject"@);
    assert(o[4].0 == "decision"@ && o[7].0 == "previous_receipt_hash"@);
    assert(o[8].0 == "receipt_hash"@);
}

} // verus!
