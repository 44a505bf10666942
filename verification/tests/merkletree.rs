use blockchain::merkletree::MerkleTree;
use blockchain::merkletree::Node;
use blockchain::utils::sha256_digest;

#[test]
fn build_tree() {
    let mut tree = MerkleTree::new();

    // Add some nodes for testing
    for index in 1..10 {
        tree.add(index);
        println!("{:?}", tree.preorder_traverse());
        println!("{:?} != {:?}", tree.len(), index);
        assert!(tree.len() == index);
        assert!(tree.size() > tree.len());
    }
}

#[test]
fn validate_tree() {
    let mut tree = MerkleTree::new();

    // Fill the tree
    for index in 1..10 {
        tree.add(index);
        assert!(tree.is_valid());
    }

    // Invalidate the tree by modifying the root node's hash
    if let Node::HashNode { ref left, ref right, ref mut hash } = *tree.root {
        let _ = (left, right);
        let new_hash = vec![1, 2, 3, 4];
        *hash = new_hash;
    } else {
        panic!("Root node is not a HashNode!");
    }
    assert!(!tree.is_valid());
}

#[test]
fn tamper_inner_branch() {
    let mut tree = MerkleTree::new();
    for index in 1..6 {
        tree.add(index);
    }
    let len_before = tree.len();
    let size_before = tree.size();
    if let Node::HashNode { ref mut left, .. } = *tree.root {
        if let Some(child) = left {
            if let Node::HashNode { ref mut hash, .. } = **child {
                hash[0] ^= 0xff;
            } else {
                panic!("left child of the root should be a branch");
            }
        } else {
            panic!("populated root should have a left child");
        }
    } else {
        panic!("root should be a branch");
    }
    assert!(!tree.is_valid());
    assert_eq!(tree.len(), len_before);
    assert_eq!(tree.size(), size_before);
}

#[test]
fn merkle_shape() {
    let mut tree = MerkleTree::new();
    assert_eq!(tree.size(), 1);
    assert_eq!(tree.get_depth(), 1);
    assert_eq!(tree.len(), 0);
    let expected: [(i32, i32); 5] = [(2, 2), (3, 2), (6, 3), (7, 3), (11, 4)];
    for (i, (size, depth)) in expected.iter().enumerate() {
        tree.add(i as i32 + 1);
        assert_eq!(tree.size(), *size);
        assert_eq!(tree.get_depth(), *depth);
        assert_eq!(tree.len(), i as i32 + 1);
    }
}

#[test]
fn empty_tree_root_hash() {
    let tree: MerkleTree<i32> = MerkleTree::new();
    assert!(tree.is_valid());
    // The empty root caches the digest of two zero pads side by side.
    let pad2 = vec![0u8; 64];
    assert_eq!(tree.get_root_hash(), &sha256_digest(&pad2));
}
