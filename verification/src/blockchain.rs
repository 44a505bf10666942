use vstd::prelude::*;
use vstd::bytes::spec_u64_to_le_bytes;
use vstd::string::StrSliceExecFns;
use vstd::string::StringExecFns;
use vstd::utf8::encode_utf8;
use crate::merkletree::MerkleTree;
use crate::transaction::SignedTransaction;
use crate::codec::length_prefixed;
use crate::codec::push_length_prefixed;
use crate::codec::push_u64;
use crate::codec::push_bytes;
use crate::codec::bytes_eq;
use crate::utils::sha256_of;
use crate::utils::sha256_digest;
use crate::utils::get_unix_timestamp;

verus! {

/// One block of the ledger: an identifier, the hash tree committing its
/// transactions, the proof-of-work nonce, a creation timestamp, and the
/// content digest of the previous block — empty for genesis.
#[derive(Clone)]
pub struct Block {
    pub id: String,
    pub transactions: MerkleTree<SignedTransaction>,
    pub nonce: i32,
    pub timestamp: u64,
    pub previous_hash: Vec<u8>,
}

/// The ordered blocks of one trader's ledger copy; index 0 is genesis.
pub struct Blockchain {
    pub blocks: Vec<Block>,
}

/// The canonical content bytes of a block: the identifier's UTF-8 bytes
/// length-prefixed, the root hash of its transaction tree, nonce and
/// timestamp as fixed-width words, and the previous-block digest
/// length-prefixed. This is what the mining loop digests.
pub open spec fn block_bytes(b: Block) -> Seq<u8> {
    length_prefixed(encode_utf8(b.id@)) + b.transactions.root.spec_hash()
        + spec_u64_to_le_bytes(b.nonce as u64) + spec_u64_to_le_bytes(b.timestamp)
        + length_prefixed(b.previous_hash@)
}

/// A block passes on its own when its transaction tree does: block-local
/// validity says nothing about linkage, which is a chain-level property.
pub open spec fn block_valid(b: Block) -> bool {
    b.transactions.spec_valid()
}

/// The link obligation at index `i`: the block is valid in itself and its
/// previous-hash equals the content digest of the block before it.
pub open spec fn chain_link_ok(blocks: Seq<Block>, i: int) -> bool {
    block_valid(blocks[i]) && blocks[i].previous_hash@ == sha256_of(block_bytes(blocks[i - 1]))
}

/// A chain is valid when every block after genesis is valid and correctly
/// linked. Genesis itself is valid by definition.
pub open spec fn chain_valid(blocks: Seq<Block>) -> bool {
    forall|i: int| 1 <= i < blocks.len() ==> #[trigger] chain_link_ok(blocks, i)
}

/// Produces the canonical content bytes of a block.
pub fn encode_block(b: &Block) -> (r: Vec<u8>)
    ensures
        r@ == block_bytes(*b),
{
    let mut out: Vec<u8> = Vec::new();
    let id_bytes = b.id.as_str().as_bytes_vec();
    push_length_prefixed(&mut out, &id_bytes);
    let root_hash = b.transactions.root.get_hash();
    push_bytes(&mut out, &root_hash);
    push_u64(&mut out, b.nonce as u64);
    push_u64(&mut out, b.timestamp);
    push_length_prefixed(&mut out, &b.previous_hash);
    proof {
        assert(out@ =~= block_bytes(*b));
    }
    out
}

impl Block {
    /// The tree's root is a branch of the leftmost-first shape.
    pub open spec fn wf(self) -> bool {
        self.transactions.wf()
    }

    /// A fresh block for one mining round: the given identifier, an empty
    /// tree, nonce zero, the given timestamp and previous-block digest.
    pub fn new(id: String, timestamp: u64, previous_hash: Vec<u8>) -> (b: Block)
        ensures
            b.id == id,
            b.transactions@ == Seq::<SignedTransaction>::empty(),
            b.wf(),
            block_valid(b),
            !b.transactions.root.spec_full(),
            b.transactions.root.spec_size() == 1,
            b.transactions.root.spec_depth() == 1,
            b.nonce == 0,
            b.timestamp == timestamp,
            b.previous_hash == previous_hash,
    {
        Block { id, transactions: MerkleTree::new(), nonce: 0, timestamp, previous_hash }
    }

    /// Checks the block's own transaction tree; linkage to the chain is
    /// checked by the chain, not here.
    pub fn is_valid(&self) -> (r: bool)
        ensures
            r == block_valid(*self),
    {
        self.transactions.is_valid()
    }
}

impl Blockchain {
    /// A chain holding only the genesis block: identifier "Genesis", empty
    /// tree, nonce zero, the clock's timestamp, empty previous-hash.
    pub fn new() -> (r: Blockchain)
        ensures
            r.blocks@.len() == 1,
            r.blocks@[0].id@ == "Genesis"@,
            r.blocks@[0].transactions@ == Seq::<SignedTransaction>::empty(),
            r.blocks@[0].wf(),
            block_valid(r.blocks@[0]),
            r.blocks@[0].nonce == 0,
            r.blocks@[0].previous_hash@ == Seq::<u8>::empty(),
            chain_valid(r.blocks@),
    {
        let gen = Block {
            id: String::from_str("Genesis"),
            transactions: MerkleTree::new(),
            nonce: 0,
            timestamp: get_unix_timestamp(),
            previous_hash: Vec::new(),
        };
        let mut blocks: Vec<Block> = Vec::new();
        blocks.push(gen);
        Blockchain { blocks }
    }

    /// Appends unconditionally: accepting a block into local history is
    /// deliberately separate from declaring the chain valid.
    pub fn add(&mut self, b: Block)
        ensures
            final(self).blocks@ == old(self).blocks@.push(b),
    {
        self.blocks.push(b);
    }

    /// Walks the chain from index 1 upward: each block must pass its own
    /// tree check, and its previous-hash must equal the content digest of
    /// the block before it, byte for byte. Stops at the first failure.
    /// Genesis is exempt.
    pub fn is_valid(&self) -> (r: bool)
        ensures
            r == chain_valid(self.blocks@),
    {
        let n = self.blocks.len();
        let mut ix: usize = 1;
        while ix < n
            invariant
                1 <= ix,
                n == self.blocks@.len(),
                forall|i: int| 1 <= i < ix ==> #[trigger] chain_link_ok(self.blocks@, i),
            decreases n - ix,
        {
            let block = &self.blocks[ix];
            if !block.is_valid() {
                proof {
                    assert(!chain_link_ok(self.blocks@, ix as int));
                }
                return false;
            }
            let prev = &self.blocks[ix - 1];
            let encoded = encode_block(prev);
            let prev_digest = sha256_digest(&encoded);
            if !bytes_eq(&prev_digest, &block.previous_hash) {
                proof {
                    assert(!chain_link_ok(self.blocks@, ix as int));
                }
                return false;
            }
            ix += 1;
        }
        true
    }
}

/// Appending a block that is valid in itself and whose previous-hash is the
/// content digest of the current tip keeps the chain valid.
pub proof fn lemma_extend_chain(blocks: Seq<Block>, b: Block)
    requires
        chain_valid(blocks),
        blocks.len() >= 1,
        block_valid(b),
        b.previous_hash@ == sha256_of(block_bytes(blocks[blocks.len() - 1])),
    ensures
        chain_valid(blocks.push(b)),
{
    let c = blocks.push(b);
    assert forall|i: int| 1 <= i < c.len() implies #[trigger] chain_link_ok(c, i) by {
        if i < blocks.len() {
            assert(chain_link_ok(blocks, i));
            assert(c[i] == blocks[i]);
            assert(c[i - 1] == blocks[i - 1]);
        } else {
            assert(c[i] == b);
            assert(c[i - 1] == blocks[i - 1]);
        }
    }
}

/// Corrupting the previous-hash of any block after genesis — replacing the
/// block by one whose previous-hash is not the digest of its predecessor —
/// makes the whole chain invalid.
pub proof fn lemma_corrupt_previous_hash(blocks: Seq<Block>, i: int, bad: Block)
    requires
        1 <= i < blocks.len(),
        bad.previous_hash@ != sha256_of(block_bytes(blocks[i - 1])),
    ensures
        !chain_valid(blocks.update(i, bad)),
{
    let c = blocks.update(i, bad);
    assert(c[i] == bad);
    assert(c[i - 1] == blocks[i - 1]);
    assert(!chain_link_ok(c, i));
}

} // verus!
