//! A compact ledger of receipts that callers build themselves: the ledger only
//! takes a receipt whose hash is right and that points back to the last one.
use vstd::prelude::*;

use crate::primitives;
use crate::primitives::sha384_hex;
use crate::text;

verus! {

/// Version carried by every receipt of the ledger.
pub const RECEIPT_SCHEMA_VERSION: u32 = 1;

/// What was decided.
#[derive(Debug, Clone, Copy, PartialEq, Eq, Structural)]
pub enum ReceiptDecision {
    Allow,
    Deny,
    RequireApproval,
    Observe,
}

impl ReceiptDecision {
    /// The decision's name, as the hash commits to it.
    pub open spec fn label(self) -> Seq<char> {
        match self {
            ReceiptDecision::Allow => "Allow"@,
            ReceiptDecision::Deny => "Deny"@,
            ReceiptDecision::RequireApproval => "RequireApproval"@,
            ReceiptDecision::Observe => "Observe"@,
        }
    }

    /// The decision's name.
    pub fn name(self) -> (r: &'static str)
        ensures
            r@ == self.label(),
    {
        match self {
            ReceiptDecision::Allow => "Allow",
            ReceiptDecision::Deny => "Deny",
            ReceiptDecision::RequireApproval => "RequireApproval",
            ReceiptDecision::Observe => "Observe",
        }
    }
}

/// Detached-signature descriptor with a reference to the signature.
#[derive(Debug, Clone, PartialEq, Eq)]
pub struct ReceiptSignature {
    pub alg: String,
    pub key_id: String,
    pub sig_ref: String,
}

/// One entry of the ledger.
#[derive(Debug, Clone, PartialEq, Eq)]
pub struct Receipt {
    pub schema_version: u32,
    pub receipt_id: String,
    pub event: String,
    pub subject: String,
    pub decision: ReceiptDecision,
    pub policy_id: Option<String>,
    pub inputs_hash: String,
    pub previous_receipt_hash: Option<String>,
    pub receipt_hash: String,
    pub signature: Option<ReceiptSignature>,
}

/// The text of an option, empty where there is none.
pub open spec fn or_empty(o: Option<String>) -> Seq<char> {
    match o {
        Some(s) => s@,
        None => ""@,
    }
}

fn or_empty_str(o: &Option<String>) -> (r: &str)
    ensures
        r@ == or_empty(*o),
{
    match o {
        Some(s) => s.as_str(),
        None => "",
    }
}

/// The byte between two committed fields.
pub const FIELD_SEPARATOR: u8 = 0x1f;

impl Receipt {
    /// The bytes that the hash commits to: the fields but for the hash and the
    /// signature, with a separator between them.
    pub open spec fn committed(self) -> Seq<u8> {
        text::be_bytes(self.schema_version as nat, 4) + seq![FIELD_SEPARATOR] + text::utf8(
            self.receipt_id@,
        ) + seq![FIELD_SEPARATOR] + text::utf8(self.event@) + seq![FIELD_SEPARATOR] + text::utf8(
            self.subject@,
        ) + seq![FIELD_SEPARATOR] + text::utf8(self.decision.label()) + seq![FIELD_SEPARATOR]
            + text::utf8(or_empty(self.policy_id)) + seq![FIELD_SEPARATOR] + text::utf8(
            self.inputs_hash@,
        ) + seq![FIELD_SEPARATOR] + text::utf8(or_empty(self.previous_receipt_hash))
    }

    /// The hash that the receipt's fields call for.
    pub open spec fn expected_hash(self) -> Seq<char> {
        primitives::sha384_hex_spec(self.committed())
    }

    /// A receipt with the right hash and no signature.
    pub fn unsigned(
        receipt_id: &str,
        event: &str,
        subject: &str,
        decision: ReceiptDecision,
        policy_id: Option<String>,
        inputs_hash: &str,
        previous_receipt_hash: Option<String>,
    ) -> (r: Self)
        ensures
            r.schema_version == RECEIPT_SCHEMA_VERSION,
            r.receipt_id@ == receipt_id@,
            r.event@ == event@,
            r.subject@ == subject@,
            r.decision == decision,
            r.policy_id == policy_id,
            r.inputs_hash@ == inputs_hash@,
            r.previous_receipt_hash == previous_receipt_hash,
            r.receipt_hash@ == r.expected_hash(),
            r.signature is None,
    {
        let mut receipt = Receipt {
            schema_version: RECEIPT_SCHEMA_VERSION,
            receipt_id: receipt_id.to_string(),
            event: event.to_string(),
            subject: subject.to_string(),
            decision,
            policy_id,
            inputs_hash: inputs_hash.to_string(),
            previous_receipt_hash,
            receipt_hash: String::new(),
            signature: None,
        };
        receipt.receipt_hash = receipt.compute_hash();
        receipt
    }

    /// The hash over the committed fields.
    pub fn compute_hash(&self) -> (r: String)
        ensures
            r@ == self.expected_hash(),
    {
        let mut b = text::be_bytes_vec(self.schema_version as u64, 4);
        b.push(FIELD_SEPARATOR);
        text::push_utf8(&mut b, self.receipt_id.as_str());
        b.push(FIELD_SEPARATOR);
        text::push_utf8(&mut b, self.event.as_str());
        b.push(FIELD_SEPARATOR);
        text::push_utf8(&mut b, self.subject.as_str());
        b.push(FIELD_SEPARATOR);
        text::push_utf8(&mut b, self.decision.name());
        b.push(FIELD_SEPARATOR);
        text::push_utf8(&mut b, or_empty_str(&self.policy_id));
        b.push(FIELD_SEPARATOR);
        text::push_utf8(&mut b, self.inputs_hash.as_str());
        b.push(FIELD_SEPARATOR);
        text::push_utf8(&mut b, or_empty_str(&self.previous_receipt_hash));
        assert(b@ =~= self.committed());
        sha384_hex(b.as_slice())
    }

    /// Whether the stored hash is the hash of the fields.
    pub fn verify_hash(&self) -> (r: bool)
        ensures
            r == (self.receipt_hash@ == self.expected_hash()),
    {
        text::same(self.receipt_hash.as_str(), self.compute_hash().as_str())
    }

    /// The receipt with a signature attached; the hash does not cover it.
    pub fn signed(self, signature: ReceiptSignature) -> (r: Self)
        ensures
            r == (Receipt { signature: Some(signature), ..self }),
            r.expected_hash() == self.expected_hash(),
    {
        let mut r = self;
        r.signature = Some(signature);
        r
    }
}

/// A sequence of receipts, each pointing back to the one before.
#[derive(Debug, Clone, PartialEq, Eq)]
pub struct ReceiptChain {
    pub receipts: Vec<Receipt>,
}

impl Default for ReceiptChain {
    fn default() -> (r: Self)
        ensures
            r.receipts@.len() == 0,
    {
        ReceiptChain { receipts: Vec::new() }
    }
}

impl ReceiptChain {
    /// The hash that receipt `i` has to point back to.
    pub open spec fn expected_previous(self, i: int) -> Option<Seq<char>> {
        if i <= 0 {
            None
        } else {
            Some(self.receipts@[i - 1].receipt_hash@)
        }
    }

    /// Receipt `i` points back to its predecessor and has the right hash.
    pub open spec fn holds_at(self, i: int) -> bool {
        let r = self.receipts@[i];
        &&& text::opt_view(r.previous_receipt_hash) == self.expected_previous(i)
        &&& r.receipt_hash@ == r.expected_hash()
    }

    /// Every receipt holds.
    pub open spec fn intact(self) -> bool {
        forall|i: int| 0 <= i < self.receipts@.len() ==> #[trigger] self.holds_at(i)
    }

    /// The empty ledger.
    pub fn new() -> (r: Self)
        ensures
            r.receipts@.len() == 0,
            r.intact(),
    {
        ReceiptChain { receipts: Vec::new() }
    }

    /// The hash of the last receipt.
    pub fn last_hash(&self) -> (r: Option<String>)
        ensures
            text::opt_view(r) == self.expected_previous(self.receipts@.len() as int),
    {
        let n: usize = self.receipts.len();
        if n == 0 {
            None
        } else {
            Some(self.receipts[n - 1].receipt_hash.clone())
        }
    }

    /// Takes a receipt whose hash is right and that points back to the last
    /// one; refuses any other and stays as it was.
    pub fn push(&mut self, receipt: Receipt) -> (r: bool)
        ensures
            r == (receipt.receipt_hash@ == receipt.expected_hash() && text::opt_view(
                receipt.previous_receipt_hash,
            ) == old(self).expected_previous(old(self).receipts@.len() as int)),
            r ==> final(self).receipts@ == old(self).receipts@.push(receipt),
            !r ==> final(self).receipts@ == old(self).receipts@,
            old(self).intact() ==> final(self).intact(),
    {
        let expected_prev = self.last_hash();
        let hash_ok = receipt.verify_hash();
        let prev_ok = text::same_opt(&receipt.previous_receipt_hash, &expected_prev);
        if hash_ok && prev_ok {
            let ghost before = *self;
            self.receipts.push(receipt);
            proof {
                if before.intact() {
                    assert forall|i: int|
                        0 <= i < self.receipts@.len() implies #[trigger] self.holds_at(i) by {
                        if i < before.receipts@.len() {
                            assert(before.holds_at(i));
                        }
                    }
                }
            }
            true
        } else {
            false
        }
    }

    /// Whether every receipt has the right hash and points back to its
    /// predecessor.
    pub fn verify(&self) -> (r: bool)
        ensures
            r == self.intact(),
    {
        let mut previous: Option<String> = None;
        let mut i: usize = 0;
        while i < self.receipts.len()
            invariant
                i <= self.receipts@.len(),
                text::opt_view(previous) == self.expected_previous(i as int),
                forall|j: int| 0 <= j < i ==> #[trigger] self.holds_at(j),
            decreases self.receipts@.len() - i,
        {
            let receipt = &self.receipts[i];
            if !text::same_opt(&receipt.previous_receipt_hash, &previous)
                || !receipt.verify_hash() {
                assert(!self.holds_at(i as int));
                return false;
            }
            previous = Some(receipt.receipt_hash.clone());
            i = i + 1;
        }
        true
    }
}

// ------------------------------------------------------------------- laws

/// Editing what a receipt commits to is found by verification, whether or not
/// the receipt's own hash is recomputed, as long as the last hash is kept (it
/// is, for every receipt but the last) and the old and the new bytes are not a
/// SHA-384 collision.
pub proof fn tampering_is_found(chain: ReceiptChain, i: int, r: Receipt, tampered: ReceiptChain)
    requires
        chain.intact(),
        0 <= i < chain.receipts@.len(),
        tampered.receipts@ == chain.receipts@.update(i, r),
        r.committed() != chain.receipts@[i].committed(),
        i + 1 < chain.receipts@.len() || r.receipt_hash@ == chain.receipts@[i].receipt_hash@,
        !primitives::collide(chain.receipts@[i].committed(), r.committed()),
    ensures
        !tampered.intact(),
{
    if tampered.intact() {
        let old_r = chain.receipts@[i];
        assert(chain.holds_at(i) && tampered.holds_at(i));
        assert(tampered.receipts@[i] == r);
        if i + 1 < chain.receipts@.len() {
            assert(chain.holds_at(i + 1) && tampered.holds_at(i + 1));
            assert(tampered.receipts@[i + 1] == chain.receipts@[i + 1]);
        }
        assert(r.receipt_hash@ == old_r.receipt_hash@);
        primitives::sha384_hex_keeps_digest(old_r.committed(), r.committed());
    }
}

} // verus!
