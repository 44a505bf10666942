use vstd::prelude::*;
use vstd::bytes::spec_u64_to_le_bytes;
use crate::keys::PublicKey;
use crate::keys::rsa_verifies;
use crate::keys::rsa_verify;
use crate::codec::length_prefixed;
use crate::codec::push_length_prefixed;
use crate::codec::push_u64;
use crate::utils::sha256_of;
use crate::utils::sha256_digest;
use crate::merkletree::Record;

verus! {

/// The default fee of a fresh transaction. Amounts are fixed-point values
/// in tenths of a unit, so this stands for a fee of 0.1.
pub const DEFAULT_FEE: u64 = 1;

/// An immutable value-transfer record: sender and receiver public keys and
/// the amounts, all fixed-point in tenths of a unit. No identity beyond its
/// field values.
#[derive(Clone)]
pub struct Transaction {
    pub sender: PublicKey,
    pub receiver: PublicKey,
    pub amount: u64,
    pub change: u64,
    pub fee: u64,
    pub tip: u64,
}

/// The canonical byte encoding of a transaction: both keys length-prefixed,
/// then the four amounts as fixed-width little-endian words.
pub open spec fn tx_bytes(t: Transaction) -> Seq<u8> {
    length_prefixed(t.sender.n@) + length_prefixed(t.sender.e@) + length_prefixed(t.receiver.n@)
        + length_prefixed(t.receiver.e@) + spec_u64_to_le_bytes(t.amount) + spec_u64_to_le_bytes(
        t.change,
    ) + spec_u64_to_le_bytes(t.fee) + spec_u64_to_le_bytes(t.tip)
}

/// Whether the stored signature verifies against the digest of the embedded
/// transaction under the sender's own public key.
pub open spec fn signature_valid(st: SignedTransaction) -> bool {
    rsa_verifies(
        st.transaction.sender.n@,
        st.transaction.sender.e@,
        sha256_of(tx_bytes(st.transaction)),
        st.signature@,
    )
}

impl Transaction {
    /// A fresh transfer of `amount` from `s` to `r`: change and tip are
    /// zero, the fee is the fixed default. No check of the amount happens
    /// here; that is left to policy.
    pub fn new(s: PublicKey, r: PublicKey, amount: u64) -> (t: Transaction)
        ensures
            t.sender == s,
            t.receiver == r,
            t.amount == amount,
            t.change == 0,
            t.fee == DEFAULT_FEE,
            t.tip == 0,
    {
        Transaction { sender: s, receiver: r, amount, change: 0, fee: DEFAULT_FEE, tip: 0 }
    }

    /// Replaces the tip, leaving every other field as it was.
    pub fn tip(&mut self, tip: u64)
        ensures
            final(self).tip == tip,
            final(self).sender == old(self).sender,
            final(self).receiver == old(self).receiver,
            final(self).amount == old(self).amount,
            final(self).change == old(self).change,
            final(self).fee == old(self).fee,
    {
        self.tip = tip;
    }

    /// Produces the canonical byte encoding.
    pub fn encode(&self) -> (r: Vec<u8>)
        ensures
            r@ == tx_bytes(*self),
    {
        let mut out: Vec<u8> = Vec::new();
        push_length_prefixed(&mut out, &self.sender.n);
        push_length_prefixed(&mut out, &self.sender.e);
        push_length_prefixed(&mut out, &self.receiver.n);
        push_length_prefixed(&mut out, &self.receiver.e);
        push_u64(&mut out, self.amount);
        push_u64(&mut out, self.change);
        push_u64(&mut out, self.fee);
        push_u64(&mut out, self.tip);
        proof {
            assert(out@ =~= tx_bytes(*self));
        }
        out
    }

    /// The digest a sender signs: the hash of the canonical encoding.
    pub fn digest(&self) -> (r: Vec<u8>)
        ensures
            r@ == sha256_of(tx_bytes(*self)),
    {
        let encoded = self.encode();
        sha256_digest(&encoded)
    }
}

/// A transaction together with a signature over its digest, produced by the
/// sender's secret key. Immutable after creation.
#[derive(Clone)]
pub struct SignedTransaction {
    pub transaction: Transaction,
    pub signature: Vec<u8>,
}

impl SignedTransaction {
    /// Recomputes the digest of the embedded transaction and checks the
    /// stored signature under the sender's public key. A failing signature
    /// is a normal outcome, not an error.
    pub fn is_valid(&self) -> (r: bool)
        ensures
            r == signature_valid(*self),
    {
        let digest = self.transaction.digest();
        rsa_verify(&self.transaction.sender, &digest, &self.signature)
    }
}

impl Record for SignedTransaction {
    /// The canonical leaf encoding: the transaction's bytes, then the
    /// signature, length-prefixed.
    open spec fn bytes(&self) -> Seq<u8> {
        tx_bytes(self.transaction) + length_prefixed(self.signature@)
    }

    fn encode(&self) -> (r: Vec<u8>) {
        let mut out = self.transaction.encode();
        push_length_prefixed(&mut out, &self.signature);
        out
    }
}

} // verus!
