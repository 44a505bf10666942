use vstd::prelude::*;
use crate::blockchain::Block;
use crate::blockchain::Blockchain;
use crate::blockchain::block_bytes;
use crate::blockchain::block_valid;
use crate::blockchain::encode_block;
use crate::transaction::SignedTransaction;
use crate::transaction::signature_valid;
use crate::utils::sha256_of;
use crate::utils::sha256_digest;

verus! {

/// The block with its nonce replaced and every other field kept.
pub open spec fn with_nonce(b: Block, nonce: i32) -> Block {
    Block { nonce, ..b }
}

/// The proof-of-work target: the first byte of the block's content digest
/// is zero.
pub open spec fn meets_target(b: Block) -> bool {
    sha256_of(block_bytes(b))[0] == 0
}

/// One intake decision of the mining round: a signed transaction whose
/// signature verifies is inserted into the block's tree, any other is
/// discarded with the block untouched.
pub fn accept_transaction(b: &mut Block, t: SignedTransaction) -> (accepted: bool)
    requires
        old(b).wf(),
        old(b).transactions.root.spec_size() + old(b).transactions.root.spec_depth() + 1
            <= i32::MAX,
    ensures
        final(b).wf(),
        accepted == signature_valid(t),
        accepted ==> final(b).transactions@ == old(b).transactions@.push(t),
        !accepted ==> *final(b) == *old(b),
        block_valid(*old(b)) ==> block_valid(*final(b)),
        final(b).id == old(b).id,
        final(b).nonce == old(b).nonce,
        final(b).timestamp == old(b).timestamp,
        final(b).previous_hash == old(b).previous_hash,
        final(b).transactions.root.spec_size() <= old(b).transactions.root.spec_size() + old(
            b,
        ).transactions.root.spec_depth() + 1,
        final(b).transactions.root.spec_depth() <= old(b).transactions.root.spec_depth() + 1,
    {
    if t.is_valid() {
        b.transactions.add(t);
        true
    } else {
        false
    }
}

/// The content digest of the chain's tip: what the next mined block must
/// carry as its previous-hash.
pub fn tip_digest(chain: &Blockchain) -> (r: Vec<u8>)
    requires
        chain.blocks@.len() >= 1,
    ensures
        r@ == sha256_of(block_bytes(chain.blocks@[chain.blocks@.len() - 1])),
{
    let last = &chain.blocks[chain.blocks.len() - 1];
    let encoded = encode_block(last);
    sha256_digest(&encoded)
}

/// The proof-of-work search: tries nonces from zero upward and stops at the
/// first whose content digest opens with a zero byte. Only the nonce
/// changes; when the search succeeds, no smaller nonce met the target.
/// Exhausting every nonce returns false instead of overflowing.
pub fn mine(b: &mut Block) -> (found: bool)
    ensures
        final(b).id == old(b).id,
        final(b).transactions == old(b).transactions,
        final(b).timestamp == old(b).timestamp,
        final(b).previous_hash == old(b).previous_hash,
        found ==> {
            &&& final(b).nonce >= 0
            &&& meets_target(*final(b))
            &&& forall|m: i32|
                0 <= m < final(b).nonce ==> !meets_target(with_nonce(*final(b), m))
        },
        !found ==> forall|m: i32| 0 <= m < i32::MAX ==> !meets_target(with_nonce(*final(b), m)),
{
    let mut nonce: i32 = 0;
    while nonce < i32::MAX
        invariant
            0 <= nonce,
            b.id == old(b).id,
            b.transactions == old(b).transactions,
            b.timestamp == old(b).timestamp,
            b.previous_hash == old(b).previous_hash,
            forall|m: i32| 0 <= m < nonce ==> !meets_target(with_nonce(*old(b), m)),
        decreases i32::MAX - nonce,
    {
        b.nonce = nonce;
        let encoded = encode_block(b);
        let digest = sha256_digest(&encoded);
        if digest[0] == 0 {
            proof {
                assert(with_nonce(*b, nonce) == *b);
                assert forall|m: i32| 0 <= m < nonce implies !meets_target(
                    with_nonce(*b, m),
                ) by {
                    assert(with_nonce(*b, m) == with_nonce(*old(b), m));
                }
            }
            return true;
        }
        proof {
            assert(*b == with_nonce(*old(b), nonce));
            assert(!meets_target(with_nonce(*old(b), nonce)));
        }
        nonce = nonce + 1;
    }
    proof {
        assert forall|m: i32| 0 <= m < i32::MAX implies !meets_target(with_nonce(*b, m)) by {
            assert(with_nonce(*b, m) == with_nonce(*old(b), m));
        }
    }
    false
}

} // verus!
