use vstd::prelude::*;
use crate::blockchain::Block;
use crate::blockchain::Blockchain;
use crate::blockchain::block_valid;
use crate::blockchain::chain_valid;
use crate::keys::KeyError;
use crate::keys::KeyPair;
use crate::keys::PublicKey;
use crate::keys::SignError;
use crate::keys::rsa_verifies;
use crate::transaction::SignedTransaction;
use crate::transaction::Transaction;
use crate::transaction::signature_valid;
use crate::transaction::tx_bytes;
use crate::utils::random_id;
use crate::utils::sha256_of;

verus! {

/// A trader: an identifier, its RSA key pair, and its private copy of the
/// chain. The message plumbing that connects traders and miners lives
/// outside the library; the trader itself holds only state and decisions.
pub struct Trader {
    pub id: String,
    pub keys: KeyPair,
    pub public_key: PublicKey,
    pub blockchain: Blockchain,
}

impl Trader {
    /// The public key field carries exactly the bytes of the key pair's
    /// public half. Every constructed trader has this.
    pub open spec fn keys_match(&self) -> bool {
        &&& self.public_key.n@ == self.keys.spec_n()
        &&& self.public_key.e@ == self.keys.spec_e()
    }

    /// A fresh trader: a random five-character identifier, fresh keys, and
    /// a chain holding only genesis. Fails only when the key generator
    /// fails; that error is passed along, not retried.
    pub fn new() -> (r: Result<Trader, KeyError>)
        ensures
            r matches Ok(t) ==> {
                &&& t.keys_match()
                &&& t.id@.len() == 5
                &&& t.blockchain.blocks@.len() == 1
                &&& t.blockchain.blocks@[0].id@ == "Genesis"@
                &&& t.blockchain.blocks@[0].transactions@ == Seq::<SignedTransaction>::empty()
                &&& chain_valid(t.blockchain.blocks@)
            },
    {
        let keys = match KeyPair::generate() {
            Ok(k) => k,
            Err(e) => {
                return Err(e);
            },
        };
        let public_key = keys.public_key();
        let id = random_id(5);
        let blockchain = Blockchain::new();
        Ok(Trader { id, keys, public_key, blockchain })
    }

    /// Signs a transaction with this trader's secret key over the digest of
    /// its canonical encoding. The produced signature verifies under this
    /// trader's public key — so the record is valid exactly when the
    /// transaction names this trader as its sender.
    pub fn sign(&self, t: Transaction) -> (r: Result<SignedTransaction, SignError>)
        ensures
            r matches Ok(st) ==> {
                &&& st.transaction == t
                &&& (self.keys_match() ==> rsa_verifies(
                    self.public_key.n@,
                    self.public_key.e@,
                    sha256_of(tx_bytes(t)),
                    st.signature@,
                ))
            },
    {
        let digest = t.digest();
        let signature = match self.keys.sign_digest(&digest) {
            Ok(s) => s,
            Err(e) => {
                return Err(e);
            },
        };
        Ok(SignedTransaction { transaction: t, signature })
    }

    /// One step of the trader's background loop: an incoming block whose
    /// transaction tree checks out is appended to the chain; any other is
    /// rejected and the chain is left untouched.
    pub fn receive_block(&mut self, b: Block) -> (accepted: bool)
        ensures
            accepted == block_valid(b),
            accepted ==> final(self).blockchain.blocks@ == old(self).blockchain.blocks@.push(b),
            !accepted ==> final(self).blockchain.blocks@ == old(self).blockchain.blocks@,
            final(self).id == old(self).id,
            final(self).public_key == old(self).public_key,
            final(self).keys_match() == old(self).keys_match(),
    {
        if b.is_valid() {
            self.blockchain.add(b);
            true
        } else {
            false
        }
    }
}

/// The signature round trip: a transaction whose sender is the signing
/// trader's own public key, once signed by that trader, validates.
pub proof fn lemma_signed_by_sender_is_valid(tr: Trader, st: SignedTransaction)
    requires
        tr.keys_match(),
        st.transaction.sender.n@ == tr.public_key.n@,
        st.transaction.sender.e@ == tr.public_key.e@,
        rsa_verifies(
            tr.public_key.n@,
            tr.public_key.e@,
            sha256_of(tx_bytes(st.transaction)),
            st.signature@,
        ),
    ensures
        signature_valid(st),
{
}

} // verus!
