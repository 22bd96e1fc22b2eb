//! Building the tree: items become leaves, and each level is folded into
//! branches of three until a single vertex is left.

use crate::hash::{hash_item, spec_hash_item};
use crate::node::{spec_branch, spec_leaf, Node};
use vstd::prelude::*;

verus! {

/// A tree built once from a list of items. It owns its root, if it has one,
/// and nothing changes it afterwards.
#[derive(Debug)]
pub struct MerkleTree {
    root: Option<Node>,
}

impl View for MerkleTree {
    type V = Option<Node>;

    /// The root vertex; `None` for the tree of no items.
    closed spec fn view(&self) -> Option<Node> {
        self.root
    }
}

/// The leaves of a list of items, in the items' order.
pub open spec fn spec_leaves(items: Seq<String>) -> Seq<Node> {
    Seq::new(items.len(), |i: int| spec_leaf(items[i]))
}

/// The branch made of the group that begins at `start`. The group is the
/// three vertices from `start` on; where the level ends before the group is
/// full, the group's first vertex fills the missing slots.
pub open spec fn spec_group(level: Seq<Node>, start: int) -> Node {
    let first = level[start];
    let middle = if start + 1 < level.len() {
        level[start + 1]
    } else {
        first
    };
    let right = if start + 2 < level.len() {
        level[start + 2]
    } else {
        first
    };
    spec_branch(first, middle, right)
}

/// The level above `level`: one branch for each group of three, taken from
/// the front, in the groups' order.
pub open spec fn spec_next_level(level: Seq<Node>) -> Seq<Node> {
    Seq::new(((level.len() + 2) / 3) as nat, |g: int| spec_group(level, 3 * g))
}

/// The root over a level: none for an empty level, the vertex itself for a
/// level of one, and otherwise the root over the level above.
pub open spec fn spec_build(level: Seq<Node>) -> Option<Node>
    decreases level.len(),
{
    if level.len() == 0 {
        None
    } else if level.len() == 1 {
        Some(level[0])
    } else {
        spec_build(spec_next_level(level))
    }
}

/// The hash of the root over a list of items.
pub open spec fn spec_root_hash(items: Seq<String>) -> Option<u64> {
    match spec_build(spec_leaves(items)) {
        Some(root) => Some(root.spec_hash()),
        None => None,
    }
}

/// There is a root exactly over a level that is not empty.
pub proof fn lemma_build_shape(level: Seq<Node>)
    ensures
        spec_build(level) is Some <==> level.len() > 0,
    decreases level.len(),
{
    if level.len() >= 2 {
        lemma_build_shape(spec_next_level(level));
    }
}

/// Folding keeps validity: over a level of valid vertices the root is valid.
pub proof fn lemma_build_wf(level: Seq<Node>)
    requires
        forall|i: int| 0 <= i < level.len() ==> (#[trigger] level[i]).wf(),
    ensures
        spec_build(level) matches Some(root) ==> root.wf(),
    decreases level.len(),
{
    if level.len() >= 2 {
        let next = spec_next_level(level);
        assert forall|g: int| 0 <= g < next.len() implies (#[trigger] next[g]).wf() by {
            assert(level[3 * g].wf());
            if 3 * g + 1 < level.len() {
                assert(level[3 * g + 1].wf());
            }
            if 3 * g + 2 < level.len() {
                assert(level[3 * g + 2].wf());
            }
        }
        lemma_build_wf(next);
    }
}

/// Folding loses nothing: a hash stored somewhere under a vertex of the
/// level is stored somewhere under the root.
pub proof fn lemma_build_keeps_hashes(level: Seq<Node>, i: int, target: u64)
    requires
        0 <= i < level.len(),
        level[i].contains_hash(target),
    ensures
        spec_build(level) matches Some(root) && root.contains_hash(target),
    decreases level.len(),
{
    if level.len() >= 2 {
        let next = spec_next_level(level);
        let g = i / 3;
        assert(next[g] == spec_group(level, 3 * g));
        assert(next[g].contains_hash(target));
        lemma_build_keeps_hashes(next, g, target);
    }
}

/// Folding adds no leaves: a hash stored in a leaf under the root is stored
/// in a leaf under some vertex of the level.
pub proof fn lemma_build_leaf_source(level: Seq<Node>, target: u64)
    requires
        spec_build(level) matches Some(root) && root.leaf_has_hash(target),
    ensures
        exists|i: int| 0 <= i < level.len() && (#[trigger] level[i]).leaf_has_hash(target),
    decreases level.len(),
{
    if level.len() >= 2 {
        let next = spec_next_level(level);
        lemma_build_leaf_source(next, target);
        let g = choose|g: int| 0 <= g < next.len() && (#[trigger] next[g]).leaf_has_hash(target);
        assert(next[g] == spec_group(level, 3 * g));
        let k = if level[3 * g].leaf_has_hash(target) {
            3 * g
        } else if 3 * g + 1 < level.len() && level[3 * g + 1].leaf_has_hash(target) {
            3 * g + 1
        } else {
            3 * g + 2
        };
        assert(0 <= k < level.len() && level[k].leaf_has_hash(target));
    }
}

/// The root's hash depends on the hashes of the level only: two levels
/// that agree hash by hash fold to roots with the same hash.
pub proof fn lemma_build_same_hashes(first: Seq<Node>, second: Seq<Node>)
    requires
        first.len() == second.len(),
        forall|i: int|
            0 <= i < first.len() ==> (#[trigger] first[i]).spec_hash() == second[i].spec_hash(),
    ensures
        spec_build(first) is Some <==> spec_build(second) is Some,
        spec_build(first) matches Some(a) ==> a.spec_hash() == spec_build(
            second,
        ).unwrap().spec_hash(),
    decreases first.len(),
{
    if first.len() >= 2 {
        let a = spec_next_level(first);
        let b = spec_next_level(second);
        assert forall|g: int| 0 <= g < a.len() implies (#[trigger] a[g]).spec_hash()
            == b[g].spec_hash() by {
            assert(first[3 * g].spec_hash() == second[3 * g].spec_hash());
            if 3 * g + 1 < first.len() {
                assert(first[3 * g + 1].spec_hash() == second[3 * g + 1].spec_hash());
            }
            if 3 * g + 2 < first.len() {
                assert(first[3 * g + 2].spec_hash() == second[3 * g + 2].spec_hash());
            }
        }
        lemma_build_same_hashes(a, b);
    } else if first.len() == 1 {
        assert(first[0].spec_hash() == second[0].spec_hash());
    }
}

/// Moves the elements of `v` into a new vector in the opposite order.
fn reversed(v: Vec<Node>) -> (r: Vec<Node>)
    ensures
        r@ == v@.reverse(),
{
    let ghost given = v@;
    let mut v = v;
    let mut r: Vec<Node> = Vec::new();
    while v.len() > 0
        invariant
            v@.len() + r@.len() == given.len(),
            forall|i: int| 0 <= i < v@.len() ==> v@[i] == given[i],
            forall|i: int| 0 <= i < r@.len() ==> r@[i] == given[given.len() - 1 - i],
        decreases v@.len(),
    {
        let node = v.pop().unwrap();
        r.push(node);
    }
    assert(r@ =~= given.reverse());
    r
}

impl MerkleTree {
    /// Every hash stored in the tree is the one its vertex implies. This
    /// holds of every tree that exists.
    #[verifier::type_invariant]
    pub open spec fn wf(self) -> bool {
        self@ matches Some(root) ==> root.wf()
    }

    /// Builds the tree over `data`: one leaf per item, in order, folded to a
    /// root. No items give a tree without a root.
    pub fn new(data: Vec<String>) -> (tree: MerkleTree)
        ensures
            tree@ == spec_build(spec_leaves(data@)),
            tree.wf(),
    {
        let mut leaves: Vec<Node> = Vec::new();
        let mut i: usize = 0;
        while i < data.len()
            invariant
                i <= data.len(),
                leaves@.len() == i,
                forall|k: int| 0 <= k < i ==> leaves@[k] == spec_leaf(data@[k]),
            decreases data.len() - i,
        {
            leaves.push(Node::leaf(data[i].clone()));
            i = i + 1;
        }
        assert(leaves@ =~= spec_leaves(data@));
        let root = MerkleTree::build_tree(leaves);
        MerkleTree { root }
    }

    /// Folds a level of vertices into its root. Each round takes the level
    /// three at a time from the front; a last group that is short is filled
    /// with copies of its first vertex.
    pub fn build_tree(nodes: Vec<Node>) -> (root: Option<Node>)
        ensures
            root == spec_build(nodes@),
            root is Some <==> nodes@.len() > 0,
            (forall|i: int| 0 <= i < nodes@.len() ==> (#[trigger] nodes@[i]).wf()) ==> (
            root matches Some(top) ==> top.wf()),
    {
        let ghost given = nodes@;
        proof {
            lemma_build_shape(given);
            if forall|i: int| 0 <= i < given.len() ==> (#[trigger] given[i]).wf() {
                lemma_build_wf(given);
            }
        }
        let mut nodes = nodes;
        while nodes.len() > 1
            invariant
                spec_build(nodes@) == spec_build(given),
            decreases nodes@.len(),
        {
            let ghost level = nodes@;
            let mut rest = reversed(nodes);
            let mut new_level: Vec<Node> = Vec::new();
            while rest.len() > 0
                invariant
                    rest@.len() <= level.len(),
                    rest@.len() > 0 ==> (level.len() - rest@.len()) % 3 == 0,
                    new_level@.len() == (level.len() - rest@.len() + 2) / 3,
                    forall|i: int|
                        0 <= i < rest@.len() ==> rest@[i] == level[level.len() - 1 - i],
                    forall|g: int|
                        0 <= g < new_level@.len() ==> new_level@[g] == spec_group(level, 3 * g),
                decreases rest@.len(),
            {
                let left = rest.pop().unwrap();
                let middle = match rest.pop() {
                    Some(node) => node,
                    None => left.clone(),
                };
                let right = match rest.pop() {
                    Some(node) => node,
                    None => left.clone(),
                };
                new_level.push(Node::branch(left, middle, right));
            }
            assert(new_level@ =~= spec_next_level(level));
            nodes = new_level;
        }
        nodes.pop()
    }

    /// The root vertex, if there is one.
    pub fn root(&self) -> (root: Option<&Node>)
        ensures
            match root {
                Some(node) => self@ == Some(*node) && node.wf(),
                None => self@ is None,
            },
    {
        proof {
            use_type_invariant(self);
        }
        self.root.as_ref()
    }

    /// The root's hash, if there is a root.
    pub fn root_hash(&self) -> (h: Option<u64>)
        ensures
            h == match self@ {
                Some(root) => Some(root.spec_hash()),
                None => None,
            },
    {
        match &self.root {
            Some(node) => Some(node.get_hash()),
            None => None,
        }
    }

    /// The hash under which `data` would stand in a tree.
    pub fn calculate_hash(&self, data: &str) -> (h: Option<u64>)
        ensures
            h == Some(spec_hash_item(data@)),
    {
        Some(hash_item(data))
    }
}

} // verus!
