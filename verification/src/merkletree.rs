use vstd::prelude::*;
use crate::utils::sha256_of;
use crate::utils::sha256_digest;
use crate::codec::push_bytes;
use crate::codec::bytes_eq;
use vstd::pervasive::unreached;
use vstd::bytes::u64_to_le_bytes;
use vstd::bytes::spec_u64_to_le_bytes;

verus! {

/// A value that the tree can commit to: it has a canonical byte encoding,
/// and a leaf's hash is the digest of that encoding.
pub trait Record: Sized {
    /// The canonical byte encoding, as a mathematical sequence.
    spec fn bytes(&self) -> Seq<u8>;

    /// Produces the canonical byte encoding.
    fn encode(&self) -> (r: Vec<u8>)
        ensures
            r@ == self.bytes(),
    ;
}

/// Small integers are records too: their canonical encoding is the
/// fixed-width little-endian word. This lets a tree be exercised on plain
/// numbers.
impl Record for i32 {
    open spec fn bytes(&self) -> Seq<u8> {
        spec_u64_to_le_bytes(*self as u64)
    }

    fn encode(&self) -> (r: Vec<u8>) {
        u64_to_le_bytes(*self as u64)
    }
}

/// A node of the hash tree: either a leaf holding one record, or a branch
/// holding up to two children and a cached hash over them.
pub enum Node<T> {
    LeafNode(T),
    HashNode { left: Option<Box<Node<T>>>, right: Option<Box<Node<T>>>, hash: Vec<u8> },
}

/// An append-only binary hash tree committing an ordered sequence of records
/// to a single root hash. The root is always a branch.
#[derive(Clone)]
pub struct MerkleTree<T> {
    pub root: Box<Node<T>>,
}

impl<T: Clone> Clone for Node<T> {
    /// A structural copy: each record is cloned, every cached hash is
    /// copied as it is. Nothing further is claimed, since `T::clone` may
    /// promise nothing.
    fn clone(&self) -> (res: Self)
        decreases self,
    {
        match self {
            Node::LeafNode(t) => Node::LeafNode(t.clone()),
            Node::HashNode { left, right, hash } => Node::HashNode {
                left: match left {
                    Option::Some(n) => Some(Box::new((**n).clone())),
                    Option::None => None,
                },
                right: match right {
                    Option::Some(n) => Some(Box::new((**n).clone())),
                    Option::None => None,
                },
                hash: hash.clone(),
            },
        }
    }
}

/// The stand-in hash for a missing child: a digest-width run of zero bytes.
pub open spec fn zero_pad() -> Seq<u8> {
    Seq::new(32, |i: int| 0u8)
}

/// Builds the zero pad as a vector.
pub fn zero_pad_vec() -> (r: Vec<u8>)
    ensures
        r@ == zero_pad(),
{
    let mut v: Vec<u8> = Vec::new();
    let mut i: usize = 0;
    while i < 32
        invariant
            i <= 32,
            v@.len() == i,
            forall|j: int| 0 <= j < i ==> v@[j] == 0u8,
        decreases 32 - i,
    {
        v.push(0u8);
        i += 1;
    }
    assert(v@ =~= zero_pad());
    v
}

impl<T> Node<T> {
    /// The records held by the leaves under `o`, left to right.
    pub open spec fn opt_leaves(o: Option<Box<Node<T>>>) -> Seq<T>
        decreases o,
    {
        match o {
            Option::None => Seq::empty(),
            Option::Some(n) => n.leaves(),
        }
    }

    /// The records held by the leaves of this subtree, left to right.
    pub open spec fn leaves(self) -> Seq<T>
        decreases self,
    {
        match self {
            Node::LeafNode(t) => seq![t],
            Node::HashNode { left, right, .. } => Self::opt_leaves(left) + Self::opt_leaves(right),
        }
    }

    pub open spec fn opt_size(o: Option<Box<Node<T>>>) -> nat
        decreases o,
    {
        match o {
            Option::None => 0,
            Option::Some(n) => n.spec_size(),
        }
    }

    /// The number of nodes in this subtree, itself included.
    pub open spec fn spec_size(self) -> nat
        decreases self,
    {
        match self {
            Node::LeafNode(_) => 1,
            Node::HashNode { left, right, .. } => 1 + Self::opt_size(left) + Self::opt_size(right),
        }
    }

    pub open spec fn opt_len(o: Option<Box<Node<T>>>) -> nat
        decreases o,
    {
        match o {
            Option::None => 0,
            Option::Some(n) => n.spec_len(),
        }
    }

    /// The number of leaves in this subtree.
    pub open spec fn spec_len(self) -> nat
        decreases self,
    {
        match self {
            Node::LeafNode(_) => 1,
            Node::HashNode { left, right, .. } => Self::opt_len(left) + Self::opt_len(right),
        }
    }

    /// The length of the leftmost root-to-leaf path, in nodes. Insertion
    /// fills the tree leftmost-first, so this is the longest such path.
    pub open spec fn spec_depth(self) -> nat
        decreases self,
    {
        match self {
            Node::LeafNode(_) => 1,
            Node::HashNode { left, .. } => match left {
                Option::Some(n) => 1 + n.spec_depth(),
                Option::None => 1,
            },
        }
    }

    pub open spec fn opt_full(o: Option<Box<Node<T>>>) -> bool
        decreases o,
    {
        match o {
            Option::None => false,
            Option::Some(n) => n.spec_full(),
        }
    }

    /// Whether no further leaf fits below this node: leaves are always full,
    /// a branch is full when both children are present and full.
    pub open spec fn spec_full(self) -> bool
        decreases self,
    {
        match self {
            Node::LeafNode(_) => true,
            Node::HashNode { left, right, .. } => Self::opt_full(left) && Self::opt_full(right),
        }
    }

    /// A leaf, or a branch with at least a left child.
    pub open spec fn nonempty(self) -> bool {
        match self {
            Node::LeafNode(_) => true,
            Node::HashNode { left, .. } => left is Some,
        }
    }

    pub open spec fn opt_shape_wf(o: Option<Box<Node<T>>>) -> bool
        decreases o,
    {
        match o {
            Option::None => true,
            Option::Some(n) => n.shape_wf() && n.nonempty(),
        }
    }

    /// The shape the leftmost-first insertion maintains: a branch gains a
    /// right child only once its left child is full, and no branch below
    /// the root is childless.
    pub open spec fn shape_wf(self) -> bool
        decreases self,
    {
        match self {
            Node::LeafNode(_) => true,
            Node::HashNode { left, right, .. } => {
                &&& Self::opt_shape_wf(left)
                &&& Self::opt_shape_wf(right)
                &&& (right is Some ==> left is Some && Self::opt_full(left))
            },
        }
    }
}

impl<T: Record> Node<T> {
    /// The hash this node stands for: a leaf's is the digest of its record's
    /// encoding, a branch's is whatever it has cached.
    pub open spec fn spec_hash(self) -> Seq<u8> {
        match self {
            Node::LeafNode(t) => sha256_of(t.bytes()),
            Node::HashNode { hash, .. } => hash@,
        }
    }

    /// The hash a child slot contributes: the child's hash, or the zero pad
    /// where the slot is empty.
    pub open spec fn opt_hash(o: Option<Box<Node<T>>>) -> Seq<u8> {
        match o {
            Option::None => zero_pad(),
            Option::Some(n) => n.spec_hash(),
        }
    }

    /// The hash a branch ought to cache: the digest of its children's hashes
    /// side by side, with the zero pad for a missing child.
    pub open spec fn spec_calc(self) -> Seq<u8> {
        match self {
            Node::LeafNode(t) => sha256_of(t.bytes()),
            Node::HashNode { left, right, .. } => sha256_of(Self::opt_hash(left) + Self::opt_hash(right)),
        }
    }

    pub open spec fn opt_ok(o: Option<Box<Node<T>>>) -> bool
        decreases o,
    {
        match o {
            Option::None => true,
            Option::Some(n) => n.hashes_ok(),
        }
    }

    /// Every branch of this subtree caches exactly the hash recomputed from
    /// its children. Leaves hold no cache and are trivially consistent.
    pub open spec fn hashes_ok(self) -> bool
        decreases self,
    {
        match self {
            Node::LeafNode(_) => true,
            Node::HashNode { left, right, hash } => {
                Self::opt_ok(left) && Self::opt_ok(right) && hash@ == self.spec_calc()
            },
        }
    }
}

impl<T> MerkleTree<T> {
    /// The root is a branch and the tree has the leftmost-first shape.
    pub open spec fn wf(self) -> bool {
        &&& (*self.root) is HashNode
        &&& self.root.shape_wf()
    }
}

impl<T> View for MerkleTree<T> {
    type V = Seq<T>;

    open spec fn view(&self) -> Seq<T> {
        self.root.leaves()
    }
}

impl<T: Record> MerkleTree<T> {
    /// Every cached hash in the tree matches its recomputation.
    pub open spec fn spec_valid(self) -> bool {
        self.root.hashes_ok()
    }
}

impl<T> Node<T> {
    /// The preorder walk of the subtree: 1 for a branch, 0 for a leaf,
    /// -1 for a missing child.
    pub open spec fn opt_preorder(o: Option<Box<Node<T>>>) -> Seq<i32>
        decreases o,
    {
        match o {
            Option::None => seq![-1i32],
            Option::Some(n) => n.preorder(),
        }
    }

    pub open spec fn preorder(self) -> Seq<i32>
        decreases self,
    {
        match self {
            Node::LeafNode(_) => seq![0i32],
            Node::HashNode { left, right, .. } => seq![1i32] + Self::opt_preorder(left)
                + Self::opt_preorder(right),
        }
    }

    /// The number of nodes in the subtree, this node included.
    pub fn size(&self) -> (r: i32)
        requires
            self.spec_size() <= i32::MAX,
        ensures
            r == self.spec_size(),
        decreases self,
    {
        match self {
            Node::LeafNode(_) => 1,
            Node::HashNode { left, right, .. } => {
                let mut total: i32 = 1;
                if let Option::Some(node) = left {
                    total = total + node.size();
                }
                if let Option::Some(node) = right {
                    total = total + node.size();
                }
                total
            },
        }
    }

    /// The number of leaf nodes in the subtree.
    pub fn len(&self) -> (r: i32)
        requires
            self.spec_size() <= i32::MAX,
        ensures
            r == self.spec_len(),
            r <= self.spec_size(),
        decreases self,
    {
        match self {
            Node::LeafNode(_) => 1,
            Node::HashNode { left, right, .. } => {
                let mut total: i32 = 0;
                if let Option::Some(node) = left {
                    total = total + node.len();
                }
                if let Option::Some(node) = right {
                    total = total + node.len();
                }
                total
            },
        }
    }

    /// The length of the leftmost root-to-leaf path.
    pub fn get_depth(&self) -> (r: i32)
        requires
            self.spec_size() <= i32::MAX,
        ensures
            r == self.spec_depth(),
            r <= self.spec_size(),
        decreases self,
    {
        match self {
            Node::LeafNode(_) => 1,
            Node::HashNode { left, .. } => {
                match left {
                    Option::Some(node) => 1 + node.get_depth(),
                    Option::None => 1,
                }
            },
        }
    }

    /// Whether another leaf still fits below this node.
    pub fn is_full(&self) -> (r: bool)
        ensures
            r == self.spec_full(),
        decreases self,
    {
        match self {
            Node::LeafNode(_) => true,
            Node::HashNode { left, right, .. } => {
                let r_full = match right {
                    Option::Some(node) => node.is_full(),
                    Option::None => false,
                };
                let l_full = match left {
                    Option::Some(node) => node.is_full(),
                    Option::None => false,
                };
                l_full && r_full
            },
        }
    }

    /// Appends the preorder walk of the subtree to `out`.
    pub fn traverse_preorder(&self, out: &mut Vec<i32>)
        ensures
            final(out)@ == old(out)@ + self.preorder(),
        decreases self,
    {
        match self {
            Node::HashNode { left, right, .. } => {
                out.push(1);
                match left {
                    Option::Some(x) => x.traverse_preorder(out),
                    Option::None => out.push(-1),
                }
                match right {
                    Option::Some(x) => x.traverse_preorder(out),
                    Option::None => out.push(-1),
                }
                assert(out@ =~= old(out)@ + self.preorder());
            },
            Node::LeafNode(_) => {
                out.push(0);
                assert(out@ =~= old(out)@ + self.preorder());
            },
        }
    }
}

impl<T: Record> Node<T> {
    /// The hash this node stands for: a branch hands out its cache, a leaf
    /// recomputes the digest of its record.
    pub fn get_hash(&self) -> (r: Vec<u8>)
        ensures
            r@ == self.spec_hash(),
    {
        match self {
            Node::HashNode { hash, .. } => {
                let mut out: Vec<u8> = Vec::new();
                push_bytes(&mut out, hash);
                out
            },
            Node::LeafNode(content) => {
                let encoded = content.encode();
                sha256_digest(&encoded)
            },
        }
    }

    /// Recomputes the hash a branch ought to cache from its children.
    pub fn calc_hash(&self) -> (r: Vec<u8>)
        requires
            (*self) is HashNode,
        ensures
            r@ == self.spec_calc(),
    {
        match self {
            Node::HashNode { left, right, .. } => {
                let mut combined = match left {
                    Option::Some(node) => node.get_hash(),
                    Option::None => zero_pad_vec(),
                };
                let right_hash = match right {
                    Option::Some(node) => node.get_hash(),
                    Option::None => zero_pad_vec(),
                };
                push_bytes(&mut combined, &right_hash);
                sha256_digest(&combined)
            },
            Node::LeafNode(_) => {
                proof {
                    assert(false);
                }
                unreached()
            },
        }
    }

    /// Recomputes this branch's cached hash from its children's hashes.
    pub fn set_hash(&mut self)
        requires
            (*old(self)) is HashNode,
        ensures
            (*final(self)) is HashNode,
            (*final(self))->left == (*old(self))->left,
            (*final(self))->right == (*old(self))->right,
            (*final(self))->hash@ == old(self).spec_calc(),
            final(self).leaves() == old(self).leaves(),
            final(self).spec_size() == old(self).spec_size(),
            final(self).spec_len() == old(self).spec_len(),
            final(self).spec_depth() == old(self).spec_depth(),
            final(self).spec_full() == old(self).spec_full(),
            final(self).shape_wf() == old(self).shape_wf(),
            final(self).nonempty() == old(self).nonempty(),
            final(self).spec_calc() == old(self).spec_calc(),
            Self::opt_ok((*old(self))->left) && Self::opt_ok((*old(self))->right)
                ==> final(self).hashes_ok(),
    {
        let new_hash = self.calc_hash();
        if let Node::HashNode { hash, .. } = self {
            *hash = new_hash;
        }
    }

    /// Inserts `c`, a leaf, at the leftmost position that is not yet full,
    /// recomputing every cached hash from the insertion point up to this
    /// node. Appends the new record after all existing ones.
    pub fn add(&mut self, c: Node<T>)
        requires
            (*old(self)) is HashNode,
            !old(self).spec_full(),
            old(self).shape_wf(),
            c is LeafNode,
        ensures
            (*final(self)) is HashNode,
            final(self).shape_wf(),
            final(self).nonempty(),
            final(self).leaves() == old(self).leaves() + c.leaves(),
            final(self).spec_size() == old(self).spec_size() + 1,
            final(self).spec_depth() == if old(self).nonempty() {
                old(self).spec_depth()
            } else {
                2nat
            },
            old(self).hashes_ok() ==> final(self).hashes_ok(),
    {
        let mut tmp = Node::HashNode { left: None, right: None, hash: Vec::new() };
        core::mem::swap(self, &mut tmp);
        tmp = Self::add_owned(tmp, c);
        core::mem::swap(self, &mut tmp);
    }

    fn add_owned(this: Node<T>, c: Node<T>) -> (r: Node<T>)
        requires
            this is HashNode,
            !this.spec_full(),
            this.shape_wf(),
            c is LeafNode,
        ensures
            r is HashNode,
            r.shape_wf(),
            r.nonempty(),
            r.leaves() == this.leaves() + c.leaves(),
            r.spec_size() == this.spec_size() + 1,
            r.spec_depth() == if this.nonempty() {
                this.spec_depth()
            } else {
                2nat
            },
            this.hashes_ok() ==> r.hashes_ok(),
        decreases this,
    {
        match this {
            Node::HashNode { left, right, hash } => {
                match left {
                    Option::None => {
                        // By the shape invariant the right slot is empty too:
                        // the new leaf becomes the left child.
                        proof {
                            lemma_leaf_facts(c);
                        }
                        let mut node = Node::HashNode {
                            left: Some(Box::new(c)),
                            right,
                            hash,
                        };
                        node.set_hash();
                        assert(node.leaves() =~= this.leaves() + c.leaves());
                        node
                    },
                    Option::Some(leftnode) => {
                        if !leftnode.is_full() {
                            proof {
                                // A branch keeps its right slot empty until
                                // the left child is full.
                                if right is Some {
                                    assert(Self::opt_full(Some(leftnode)));
                                    assert(false);
                                }
                            }
                            let newleft = Self::add_owned(*leftnode, c);
                            let mut node = Node::HashNode {
                                left: Some(Box::new(newleft)),
                                right,
                                hash,
                            };
                            node.set_hash();
                            assert(node.leaves() =~= this.leaves() + c.leaves());
                            node
                        } else {
                            match right {
                                Option::None => {
                                    proof {
                                        lemma_leaf_facts(c);
                                    }
                                    let mut node = Node::HashNode {
                                        left: Some(leftnode),
                                        right: Some(Box::new(c)),
                                        hash,
                                    };
                                    node.set_hash();
                                    assert(node.leaves() =~= this.leaves() + c.leaves());
                                    node
                                },
                                Option::Some(rightnode) => {
                                    proof {
                                        // The left child is full but this node
                                        // is not, so the right child is not
                                        // full either; leaves are always full,
                                        // so it is a branch.
                                        assert(!rightnode.spec_full());
                                        assert((*rightnode) is HashNode);
                                    }
                                    let newright = Self::add_owned(*rightnode, c);
                                    let mut node = Node::HashNode {
                                        left: Some(leftnode),
                                        right: Some(Box::new(newright)),
                                        hash,
                                    };
                                    node.set_hash();
                                    assert(node.leaves() =~= this.leaves() + c.leaves());
                                    node
                                },
                            }
                        }
                    },
                }
            },
            Node::LeafNode(_) => {
                proof {
                    assert(false);
                }
                unreached()
            },
        }
    }

    /// Checks every cached hash in the subtree against its recomputation.
    pub fn is_valid(&self) -> (r: bool)
        ensures
            r == self.hashes_ok(),
        decreases self,
    {
        match self {
            Node::HashNode { left, right, hash } => {
                let left_is_valid = match left {
                    Option::Some(n) => n.is_valid(),
                    Option::None => true,
                };
                let right_is_valid = match right {
                    Option::Some(n) => n.is_valid(),
                    Option::None => true,
                };
                let target = self.calc_hash();
                let i_am_valid = bytes_eq(hash, &target);
                left_is_valid && right_is_valid && i_am_valid
            },
            Node::LeafNode(_) => true,
        }
    }
}

impl<T: Record> MerkleTree<T> {
    /// An empty tree: a childless root branch caching the digest of two
    /// zero pads.
    pub fn new() -> (tree: Self)
        ensures
            tree.wf(),
            tree@ == Seq::<T>::empty(),
            tree.spec_valid(),
            !tree.root.spec_full(),
            tree.root.spec_size() == 1,
            tree.root.spec_depth() == 1,
            !tree.root.nonempty(),
    {
        let mut combined = zero_pad_vec();
        let second = zero_pad_vec();
        push_bytes(&mut combined, &second);
        let h = sha256_digest(&combined);
        let root = Node::HashNode { left: None, right: None, hash: h };
        proof {
            assert(root.hashes_ok());
            assert(root.leaves() =~= Seq::<T>::empty());
        }
        MerkleTree { root: Box::new(root) }
    }

    /// Appends `value` as a new leaf at the leftmost position that is not
    /// full. When the whole tree is full, a new root takes the old root as
    /// its left child and a fresh single-child chain of matching depth as
    /// its right child, so every hash below the old root is reused.
    pub fn add(&mut self, value: T)
        requires
            old(self).wf(),
            old(self).root.spec_size() + old(self).root.spec_depth() + 1 <= i32::MAX,
        ensures
            final(self).wf(),
            final(self)@ == old(self)@.push(value),
            final(self)@.len() == old(self)@.len() + 1,
            old(self).spec_valid() ==> final(self).spec_valid(),
            !old(self).root.spec_full() ==> final(self).root.spec_size() == old(
                self,
            ).root.spec_size() + 1,
            old(self).root.spec_full() ==> final(self).root.spec_size() == old(
                self,
            ).root.spec_size() + old(self).root.spec_depth() + 1,
            final(self).root.spec_depth() <= old(self).root.spec_depth() + 1,
            !old(self).root.spec_full() ==> final(self).root.spec_depth() == (if old(
                self,
            ).root.nonempty() {
                old(self).root.spec_depth()
            } else {
                2nat
            }),
            old(self).root.spec_full() ==> final(self).root.spec_depth() == old(
                self,
            ).root.spec_depth() + 1,
    {
        proof {
            lemma_leaves_len(*old(self).root);
            lemma_leaves_len(*self.root);
        }
        let c = Node::LeafNode(value);
        let full = self.root.is_full();
        if !full {
            let ghost pre = *self;
            self.root.add(c);
            proof {
                assert(final(self)@ =~= pre@.push(value));
            }
        } else {
            // The root is full, so it has a full left child: its depth is
            // at least two.
            let d = self.root.get_depth();
            proof {
                assert(Node::opt_full((*self.root)->left));
                assert((*self.root)->left is Some);
                lemma_depth_pos(*(*self.root)->left.unwrap());
                assert(self.root.spec_depth() >= 2);
            }
            let mut new_branch = Node::HashNode {
                left: Some(Box::new(c)),
                right: None,
                hash: Vec::new(),
            };
            proof {
                lemma_leaf_facts(c);
            }
            new_branch.set_hash();
            proof {
                assert(new_branch.leaves() =~= seq![value]);
            }
            let mut i: i32 = 1;
            while i < d - 1
                invariant
                    1 <= i <= d - 1,
                    2 <= d <= i32::MAX,
                    new_branch is HashNode,
                    new_branch.shape_wf(),
                    new_branch.nonempty(),
                    new_branch.hashes_ok(),
                    !new_branch.spec_full(),
                    new_branch.leaves() == seq![value],
                    new_branch.spec_depth() == i + 1,
                    new_branch.spec_size() == i + 1,
                decreases d - 1 - i,
            {
                let mut wrapped = Node::HashNode {
                    left: Some(Box::new(new_branch)),
                    right: None,
                    hash: Vec::new(),
                };
                wrapped.set_hash();
                proof {
                    assert(wrapped.leaves() =~= seq![value]);
                }
                new_branch = wrapped;
                i += 1;
            }
            let mut old_root = Box::new(
                Node::HashNode { left: None, right: None, hash: Vec::new() },
            );
            core::mem::swap(&mut self.root, &mut old_root);
            let mut new_root = Node::HashNode {
                left: Some(old_root),
                right: Some(Box::new(new_branch)),
                hash: Vec::new(),
            };
            new_root.set_hash();
            self.root = Box::new(new_root);
            proof {
                assert(final(self)@ =~= old(self)@ + seq![value]);
                assert(final(self)@ =~= old(self)@.push(value));
            }
        }
    }

    /// The cached root hash.
    pub fn get_root_hash(&self) -> (r: &Vec<u8>)
        requires
            (*self.root) is HashNode,
        ensures
            r@ == self.root.spec_hash(),
    {
        match &*self.root {
            Node::HashNode { hash, .. } => hash,
            Node::LeafNode(_) => {
                proof {
                    assert(false);
                }
                unreached()
            },
        }
    }

    /// The preorder walk of the tree: 1 for a branch, 0 for a leaf, -1 for
    /// a missing child.
    pub fn preorder_traverse(&self) -> (out: Vec<i32>)
        ensures
            out@ == self.root.preorder(),
    {
        let mut out: Vec<i32> = Vec::new();
        self.root.traverse_preorder(&mut out);
        out
    }

    /// The total number of nodes within the tree.
    pub fn size(&self) -> (r: i32)
        requires
            self.root.spec_size() <= i32::MAX,
        ensures
            r == self.root.spec_size(),
    {
        self.root.size()
    }

    /// The number of leaf nodes within the tree, which is the number of
    /// records committed to it.
    pub fn len(&self) -> (r: i32)
        requires
            self.root.spec_size() <= i32::MAX,
        ensures
            r == self.root.spec_len(),
            r == self@.len(),
    {
        proof {
            lemma_leaves_len(*self.root);
        }
        self.root.len()
    }

    /// The length of the leftmost root-to-leaf path.
    pub fn get_depth(&self) -> (r: i32)
        requires
            self.root.spec_size() <= i32::MAX,
        ensures
            r == self.root.spec_depth(),
    {
        self.root.get_depth()
    }

    /// Recomputes every branch hash from the stored children and compares it
    /// with the cache: true exactly when no cached hash has been tampered
    /// with.
    pub fn is_valid(&self) -> (r: bool)
        ensures
            r == self.spec_valid(),
    {
        self.root.is_valid()
    }
}

/// A leaf on its own: full, consistent, one node deep and wide.
pub proof fn lemma_leaf_facts<T: Record>(c: Node<T>)
    requires
        c is LeafNode,
    ensures
        c.shape_wf(),
        c.nonempty(),
        c.spec_full(),
        c.hashes_ok(),
        c.spec_depth() == 1,
        c.spec_size() == 1,
        c.spec_len() == 1,
        c.leaves().len() == 1,
{
}

/// Every subtree has at least one node on its leftmost path.
pub proof fn lemma_depth_pos<T>(n: Node<T>)
    ensures
        n.spec_depth() >= 1,
    decreases n,
{
    match n {
        Node::LeafNode(_) => {},
        Node::HashNode { .. } => {},
    }
}

/// The number of leaves of a subtree equals the length of its record
/// sequence.
pub proof fn lemma_leaves_len<T>(n: Node<T>)
    ensures
        n.leaves().len() == n.spec_len(),
    decreases n,
{
    match n {
        Node::LeafNode(_) => {},
        Node::HashNode { left, right, .. } => {
            match left {
                Option::Some(l) => lemma_leaves_len(*l),
                Option::None => {},
            }
            match right {
                Option::Some(r) => lemma_leaves_len(*r),
                Option::None => {},
            }
        },
    }
}

/// In every subtree the leaf count is at most the node count, and a branch
/// has strictly more nodes than leaves.
pub proof fn lemma_len_lt_size<T>(n: Node<T>)
    ensures
        n.spec_len() <= n.spec_size(),
        n is HashNode ==> n.spec_len() < n.spec_size(),
    decreases n,
{
    match n {
        Node::LeafNode(_) => {},
        Node::HashNode { left, right, .. } => {
            match left {
                Option::Some(l) => lemma_len_lt_size(*l),
                Option::None => {},
            }
            match right {
                Option::Some(r) => lemma_len_lt_size(*r),
                Option::None => {},
            }
        },
    }
}

/// A tree always holds more nodes than records: the root branch is never
/// counted as a leaf.
pub proof fn lemma_size_exceeds_len<T>(tree: MerkleTree<T>)
    requires
        tree.wf(),
    ensures
        tree.root.spec_size() > tree.root.spec_len(),
        tree.root.spec_size() > tree@.len(),
{
    lemma_len_lt_size(*tree.root);
    lemma_leaves_len(*tree.root);
}

/// `b` equals `a` except that the branch reached from `a`'s root by
/// following `path` (false for left, true for right) caches a different
/// hash.
pub open spec fn differs_at_hash<T>(a: Node<T>, b: Node<T>, path: Seq<bool>) -> bool
    decreases path.len(),
{
    if path.len() == 0 {
        &&& a is HashNode
        &&& b is HashNode
        &&& b->left == a->left
        &&& b->right == a->right
        &&& b->hash@ != a->hash@
    } else {
        &&& a is HashNode
        &&& b is HashNode
        &&& b->hash == a->hash
        &&& if path[0] {
            &&& b->left == a->left
            &&& a->right is Some
            &&& b->right is Some
            &&& differs_at_hash(*a->right.unwrap(), *b->right.unwrap(), path.skip(1))
        } else {
            &&& b->right == a->right
            &&& a->left is Some
            &&& b->left is Some
            &&& differs_at_hash(*a->left.unwrap(), *b->left.unwrap(), path.skip(1))
        }
    }
}

/// Tampering: changing the cached hash of any one branch of a tree whose
/// hashes all check out makes the check fail, while the records, the node
/// count and the leaf count stay as they were.
pub proof fn lemma_tampered_node_invalid<T: Record>(a: Node<T>, b: Node<T>, path: Seq<bool>)
    requires
        a.hashes_ok(),
        differs_at_hash(a, b, path),
    ensures
        !b.hashes_ok(),
        b.leaves() == a.leaves(),
        b.spec_size() == a.spec_size(),
        b.spec_len() == a.spec_len(),
    decreases path.len(),
{
    if path.len() == 0 {
        assert(b.spec_calc() == a.spec_calc());
        assert(a->hash@ == a.spec_calc());
        assert(b.leaves() =~= a.leaves());
    } else {
        if path[0] {
            lemma_tampered_node_invalid(*a->right.unwrap(), *b->right.unwrap(), path.skip(1));
        } else {
            lemma_tampered_node_invalid(*a->left.unwrap(), *b->left.unwrap(), path.skip(1));
        }
        assert(b.leaves() =~= a.leaves());
    }
}

/// Tampering with any cached branch hash in a tree that passes validation
/// makes validation fail, and changes neither the committed records nor the
/// node or leaf counts.
pub proof fn lemma_tamper_detected<T: Record>(a: MerkleTree<T>, b: MerkleTree<T>, path: Seq<bool>)
    requires
        a.spec_valid(),
        differs_at_hash(*a.root, *b.root, path),
    ensures
        !b.spec_valid(),
        b@ == a@,
        b.root.spec_size() == a.root.spec_size(),
        b.root.spec_len() == a.root.spec_len(),
{
    lemma_tampered_node_invalid(*a.root, *b.root, path);
}

} // verus!
