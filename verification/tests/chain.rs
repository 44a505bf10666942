use blockchain::blockchain::Block;
use blockchain::blockchain::Blockchain;
use blockchain::blockchain::encode_block;
use blockchain::merkletree::Node;
use blockchain::miner::accept_transaction;
use blockchain::miner::mine;
use blockchain::miner::tip_digest;
use blockchain::trader::Trader;
use blockchain::transaction::Transaction;
use blockchain::utils::get_unix_timestamp;
use blockchain::utils::random_id;
use blockchain::utils::sha256_digest;

#[test]
fn genesis_chain_is_valid() {
    let chain = Blockchain::new();
    assert_eq!(chain.blocks.len(), 1);
    assert_eq!(chain.blocks[0].id, "Genesis");
    assert_eq!(chain.blocks[0].nonce, 0);
    assert!(chain.blocks[0].previous_hash.is_empty());
    assert!(chain.is_valid());
}

#[test]
fn chain_linkage() {
    let mut chain = Blockchain::new();
    for _ in 0..3 {
        let prev = tip_digest(&chain);
        let mut b = Block::new(random_id(10), get_unix_timestamp(), prev);
        assert!(mine(&mut b));
        chain.add(b);
        assert!(chain.is_valid());
    }
    assert_eq!(chain.blocks.len(), 4);

    // Corrupting one block's previous-hash invalidates the chain.
    chain.blocks[2].previous_hash[0] ^= 1;
    assert!(!chain.is_valid());
}

#[test]
fn mining_meets_target() {
    let chain = Blockchain::new();
    let prev = tip_digest(&chain);
    let mut b = Block::new(random_id(10), get_unix_timestamp(), prev);
    assert!(mine(&mut b));
    assert!(b.nonce >= 0);

    // Recomputing the digest at the found nonce meets the target.
    let digest = sha256_digest(&encode_block(&b));
    assert_eq!(digest[0], 0);

    // No smaller nonce satisfied it.
    for m in 0..b.nonce {
        let mut earlier = b.clone();
        earlier.nonce = m;
        let d = sha256_digest(&encode_block(&earlier));
        assert_ne!(d[0], 0);
    }
}

#[test]
fn invalid_block_rejected() {
    let mut a = Trader::new().unwrap();
    let chain_before = a.blockchain.blocks.len();
    let prev = tip_digest(&a.blockchain);
    let mut b = Block::new(random_id(10), get_unix_timestamp(), prev);
    assert!(mine(&mut b));

    // Corrupt the block's tree: its cached root hash no longer matches.
    if let Node::HashNode { ref mut hash, .. } = *b.transactions.root {
        hash[0] ^= 0xff;
    } else {
        panic!("block tree root should be a branch");
    }
    assert!(!a.receive_block(b));
    assert_eq!(a.blockchain.blocks.len(), chain_before);
}

#[test]
fn transfer_reaches_chain() {
    // Two traders and one miner round linked to the first: the signed
    // transfer travels record -> miner -> block -> chain.
    let mut a = Trader::new().unwrap();
    let b = Trader::new().unwrap();

    let t = Transaction::new(a.public_key.clone(), b.public_key.clone(), 100);
    let st = a.sign(t).unwrap();

    let prev = tip_digest(&a.blockchain);
    let mut block = Block::new(random_id(10), get_unix_timestamp(), prev);
    assert!(accept_transaction(&mut block, st));
    assert!(mine(&mut block));

    assert_eq!(a.blockchain.blocks.len(), 1);
    assert!(a.receive_block(block));
    assert_eq!(a.blockchain.blocks.len(), 2);
    assert!(a.blockchain.is_valid());

    let tree = &a.blockchain.blocks[1].transactions;
    assert_eq!(tree.len(), 1);
    match &*tree.root {
        Node::HashNode { left: Some(leaf), .. } => match &**leaf {
            Node::LeafNode(record) => {
                assert_eq!(record.transaction.amount, 100);
            }
            Node::HashNode { .. } => panic!("expected the single record as a leaf"),
        },
        _ => panic!("expected a branch root with a left child"),
    }
}
