//! The vertices of the tree.

use crate::hash::{aggregate, hash_item, spec_aggregate, spec_hash_item};
use vstd::prelude::*;

verus! {

/// One vertex: a leaf that carries an item, or a branch over exactly three
/// subtrees. Each carries its hash, so reading it never recomputes anything.
#[derive(Debug)]
pub enum Node {
    Leaf { hash: u64, data: String },
    Branch { hash: u64, left: Box<Node>, middle: Box<Node>, right: Box<Node> },
}

/// The leaf that stands for `data`.
pub open spec fn spec_leaf(data: String) -> Node {
    Node::Leaf { hash: spec_hash_item(data@), data }
}

/// The branch over three subtrees, in slot order.
pub open spec fn spec_branch(left: Node, middle: Node, right: Node) -> Node {
    Node::Branch {
        hash: spec_aggregate(left.spec_hash(), middle.spec_hash(), right.spec_hash()),
        left: Box::new(left),
        middle: Box::new(middle),
        right: Box::new(right),
    }
}

impl Node {
    /// The hash stored in this vertex.
    pub open spec fn spec_hash(self) -> u64 {
        match self {
            Node::Leaf { hash, .. } => hash,
            Node::Branch { hash, .. } => hash,
        }
    }

    /// Every stored hash is the one its vertex implies: a leaf's is the hash
    /// of its item, a branch's the aggregate of its children's hashes.
    pub open spec fn wf(self) -> bool
        decreases self,
    {
        match self {
            Node::Leaf { hash, data } => hash == spec_hash_item(data@),
            Node::Branch { hash, left, middle, right } => {
                &&& left.wf()
                &&& middle.wf()
                &&& right.wf()
                &&& hash == spec_aggregate(
                    left.spec_hash(),
                    middle.spec_hash(),
                    right.spec_hash(),
                )
            },
        }
    }

    /// Some vertex of this subtree, the top one included, stores `target`.
    pub open spec fn contains_hash(self, target: u64) -> bool
        decreases self,
    {
        match self {
            Node::Leaf { hash, .. } => hash == target,
            Node::Branch { hash, left, middle, right } => {
                ||| hash == target
                ||| left.contains_hash(target)
                ||| middle.contains_hash(target)
                ||| right.contains_hash(target)
            },
        }
    }

    /// Some branch of this subtree stores `target`.
    pub open spec fn branch_has_hash(self, target: u64) -> bool
        decreases self,
    {
        match self {
            Node::Leaf { .. } => false,
            Node::Branch { hash, left, middle, right } => {
                ||| hash == target
                ||| left.branch_has_hash(target)
                ||| middle.branch_has_hash(target)
                ||| right.branch_has_hash(target)
            },
        }
    }

    /// Some leaf of this subtree stores `target`.
    pub open spec fn leaf_has_hash(self, target: u64) -> bool
        decreases self,
    {
        match self {
            Node::Leaf { hash, .. } => hash == target,
            Node::Branch { left, middle, right, .. } => {
                ||| left.leaf_has_hash(target)
                ||| middle.leaf_has_hash(target)
                ||| right.leaf_has_hash(target)
            },
        }
    }

    /// A vertex stores a hash exactly when one of its leaves or one of its
    /// branches does.
    pub proof fn lemma_contains_hash_split(self, target: u64)
        ensures
            self.contains_hash(target) <==> self.leaf_has_hash(target) || self.branch_has_hash(
                target,
            ),
        decreases self,
    {
        match self {
            Node::Leaf { .. } => {},
            Node::Branch { left, middle, right, .. } => {
                left.lemma_contains_hash_split(target);
                middle.lemma_contains_hash_split(target);
                right.lemma_contains_hash_split(target);
            },
        }
    }

    /// Returns the stored hash.
    pub fn get_hash(&self) -> (h: u64)
        ensures
            h == self.spec_hash(),
    {
        match self {
            Node::Leaf { hash, .. } => *hash,
            Node::Branch { hash, .. } => *hash,
        }
    }

    /// Makes the leaf for one item, hashing the item.
    pub fn leaf(data: String) -> (node: Node)
        ensures
            node == spec_leaf(data),
            node.wf(),
    {
        let hash = hash_item(data.as_str());
        Node::Leaf { hash, data }
    }

    /// Makes the branch over three subtrees, aggregating their hashes.
    pub fn branch(left: Node, middle: Node, right: Node) -> (node: Node)
        ensures
            node == spec_branch(left, middle, right),
            left.wf() && middle.wf() && right.wf() ==> node.wf(),
    {
        let hash = aggregate(left.get_hash(), middle.get_hash(), right.get_hash());
        Node::Branch {
            hash,
            left: Box::new(left),
            middle: Box::new(middle),
            right: Box::new(right),
        }
    }
}

impl Clone for Node {
    /// Copies the whole subtree; the copy equals the subtree copied.
    fn clone(&self) -> (res: Node)
        ensures
            res == *self,
        decreases self,
    {
        match self {
            Node::Leaf { hash, data } => Node::Leaf { hash: *hash, data: data.clone() },
            Node::Branch { hash, left, middle, right } => Node::Branch {
                hash: *hash,
                left: Box::new((&**left).clone()),
                middle: Box::new((&**middle).clone()),
                right: Box::new((&**right).clone()),
            },
        }
    }
}

} // verus!
