//! Membership proofs: finding a hash in the tree, recording the siblings on
//! the way up, and recomputing the root from what was recorded.

use crate::hash::{aggregate, spec_aggregate, spec_hash_item};
use crate::node::Node;
use crate::tree::MerkleTree;
use vstd::prelude::*;

verus! {

/// A slot of a branch.
#[derive(Debug, Clone, Copy, PartialEq, Eq, Structural)]
pub enum Direction {
    Left,
    Middle,
    Right,
}

/// What a proof holds: the hash it starts from and, for each level from the
/// matched vertex up to the root, two sibling hashes and the slots the two
/// siblings occupy. The two sequences run in parallel.
#[derive(Debug)]
pub struct Proof {
    pub target_hash: u64,
    pub proof_hashes: Vec<u64>,
    pub proof_directions: Vec<Direction>,
}

/// How checking a proof against a root ended.
#[derive(Debug, Clone, Copy, PartialEq, Eq, Structural)]
pub enum ProofOutcome {
    /// The proof recomputes the expected root.
    Valid,
    /// The proof is well formed but recomputes another hash.
    HashMismatch,
    /// The proof cannot be walked: its two sequences differ in length, a
    /// level lacks a sibling, or a level's slots are not two distinct slots
    /// in slot order.
    Malformed,
}

/// The mathematical content of a [`Proof`].
pub struct Evidence {
    pub start: u64,
    pub hashes: Seq<u64>,
    pub directions: Seq<Direction>,
}

impl View for Proof {
    type V = Evidence;

    open spec fn view(&self) -> Evidence {
        Evidence {
            start: self.target_hash,
            hashes: self.proof_hashes@,
            directions: self.proof_directions@,
        }
    }
}

/// The child hashes, in slot order, of the branch whose one child hashes to
/// `current` and whose two other children hash to `first` and `second`,
/// standing in the slots `first_slot` and `second_slot`. The siblings come
/// in slot order, so the slot that they leave free is the one of `current`;
/// any other pair of slots describes no branch.
pub open spec fn spec_level_children(
    current: u64,
    first: u64,
    first_slot: Direction,
    second: u64,
    second_slot: Direction,
) -> Option<(u64, u64, u64)> {
    match (first_slot, second_slot) {
        (Direction::Middle, Direction::Right) => Some((current, first, second)),
        (Direction::Left, Direction::Right) => Some((first, current, second)),
        (Direction::Left, Direction::Middle) => Some((first, second, current)),
        _ => None,
    }
}

/// The hash of that branch: the aggregate of its child hashes.
pub open spec fn spec_level_hash(
    current: u64,
    first: u64,
    first_slot: Direction,
    second: u64,
    second_slot: Direction,
) -> Option<u64> {
    match spec_level_children(current, first, first_slot, second, second_slot) {
        Some(children) => Some(spec_aggregate(children.0, children.1, children.2)),
        None => None,
    }
}

impl Evidence {
    /// The evidence for `target` found at the very vertex asked about.
    pub open spec fn at(target: u64) -> Evidence {
        Evidence { start: target, hashes: Seq::empty(), directions: Seq::empty() }
    }

    /// This evidence with one more level on top of it.
    pub open spec fn with_level(
        self,
        first: u64,
        first_slot: Direction,
        second: u64,
        second_slot: Direction,
    ) -> Evidence {
        Evidence {
            start: self.start,
            hashes: self.hashes.push(first).push(second),
            directions: self.directions.push(first_slot).push(second_slot),
        }
    }

    /// The child hashes of the branch that the first level describes.
    pub open spec fn children(self) -> Option<(u64, u64, u64)>
        recommends
            self.hashes.len() >= 2,
            self.directions.len() >= 2,
    {
        spec_level_children(
            self.start,
            self.hashes[0],
            self.directions[0],
            self.hashes[1],
            self.directions[1],
        )
    }

    /// The evidence that is left once the first level is taken: it starts
    /// from the hash of that level's branch.
    pub open spec fn above(self) -> Evidence
        recommends
            self.hashes.len() >= 2,
            self.directions.len() >= 2,
            self.children() is Some,
    {
        let children = self.children().unwrap();
        Evidence {
            start: spec_aggregate(children.0, children.1, children.2),
            hashes: self.hashes.skip(2),
            directions: self.directions.skip(2),
        }
    }

    /// The hash that walking every level yields, from `start` outward.
    /// `None` where the evidence cannot be walked.
    pub open spec fn recompute(self) -> Option<u64>
        decreases self.hashes.len(),
    {
        if self.hashes.len() == 0 && self.directions.len() == 0 {
            Some(self.start)
        } else if self.hashes.len() < 2 || self.directions.len() < 2 {
            None
        } else if self.children() is Some {
            self.above().recompute()
        } else {
            None
        }
    }

    /// The outcome of checking this evidence against `expected_root`.
    pub open spec fn check(self, expected_root: u64) -> ProofOutcome {
        match self.recompute() {
            None => ProofOutcome::Malformed,
            Some(top) => if top == expected_root {
                ProofOutcome::Valid
            } else {
                ProofOutcome::HashMismatch
            },
        }
    }
}

/// The evidence that a depth-first search of `node` for `target` yields.
/// A vertex that stores `target` ends the search at once, a branch too;
/// otherwise the left, middle and right subtrees are tried in that order,
/// and the first that holds `target` gives the evidence, with the two other
/// children of this branch recorded on top.
pub open spec fn spec_path(node: Node, target: u64) -> Option<Evidence>
    decreases node,
{
    match node {
        Node::Leaf { hash, .. } => if hash == target {
            Some(Evidence::at(target))
        } else {
            None
        },
        Node::Branch { hash, left, middle, right } => {
            if hash == target {
                Some(Evidence::at(target))
            } else if let Some(below) = spec_path(*left, target) {
                Some(
                    below.with_level(
                        middle.spec_hash(),
                        Direction::Middle,
                        right.spec_hash(),
                        Direction::Right,
                    ),
                )
            } else if let Some(below) = spec_path(*middle, target) {
                Some(
                    below.with_level(
                        left.spec_hash(),
                        Direction::Left,
                        right.spec_hash(),
                        Direction::Right,
                    ),
                )
            } else if let Some(below) = spec_path(*right, target) {
                Some(
                    below.with_level(
                        left.spec_hash(),
                        Direction::Left,
                        middle.spec_hash(),
                        Direction::Middle,
                    ),
                )
            } else {
                None
            }
        },
    }
}

/// The evidence for `item` in a tree with the given root, if any.
pub open spec fn spec_generate(root: Option<Node>, item: Seq<char>) -> Option<Evidence> {
    match root {
        Some(node) => spec_path(node, spec_hash_item(item)),
        None => None,
    }
}

/// Walking evidence with one more level on top first walks the evidence and
/// then takes the one level from where that arrived.
pub proof fn lemma_recompute_with_level(
    below: Evidence,
    first: u64,
    first_slot: Direction,
    second: u64,
    second_slot: Direction,
)
    requires
        below.recompute() is Some,
    ensures
        below.with_level(first, first_slot, second, second_slot).recompute() == spec_level_hash(
            below.recompute().unwrap(),
            first,
            first_slot,
            second,
            second_slot,
        ),
    decreases below.hashes.len(),
{
    let whole = below.with_level(first, first_slot, second, second_slot);
    if below.hashes.len() == 0 && below.directions.len() == 0 {
        if let Some(above) = spec_level_hash(below.start, first, first_slot, second, second_slot) {
            let rest = Evidence {
                start: above,
                hashes: whole.hashes.skip(2),
                directions: whole.directions.skip(2),
            };
            assert(rest.recompute() == Some(above));
        }
    } else {
        let above = spec_level_hash(
            below.start,
            below.hashes[0],
            below.directions[0],
            below.hashes[1],
            below.directions[1],
        ).unwrap();
        let rest = Evidence {
            start: above,
            hashes: below.hashes.skip(2),
            directions: below.directions.skip(2),
        };
        lemma_recompute_with_level(rest, first, first_slot, second, second_slot);
        let whole_rest = Evidence {
            start: above,
            hashes: whole.hashes.skip(2),
            directions: whole.directions.skip(2),
        };
        assert(whole_rest.hashes =~= rest.hashes.push(first).push(second));
        assert(whole_rest.directions =~= rest.directions.push(first_slot).push(second_slot));
        assert(whole_rest == rest.with_level(first, first_slot, second, second_slot));
        assert(whole.recompute() == whole_rest.recompute());
    }
}

/// The search finds `target` exactly when some vertex stores it, and what it
/// finds starts from `target`. In a valid subtree the evidence found walks
/// up to the hash of the subtree's top vertex.
pub proof fn lemma_path_found(node: Node, target: u64)
    ensures
        spec_path(node, target) is Some <==> node.contains_hash(target),
        spec_path(node, target) matches Some(found) ==> found.start == target,
        node.wf() ==> (spec_path(node, target) matches Some(found) ==> found.recompute() == Some(
            node.spec_hash(),
        )),
    decreases node,
{
    match node {
        Node::Leaf { .. } => {},
        Node::Branch { hash, left, middle, right } => {
            lemma_path_found(*left, target);
            lemma_path_found(*middle, target);
            lemma_path_found(*right, target);
            if hash != target && node.wf() {
                let l = left.spec_hash();
                let m = middle.spec_hash();
                let r = right.spec_hash();
                if let Some(below) = spec_path(*left, target) {
                    lemma_recompute_with_level(below, m, Direction::Middle, r, Direction::Right);
                } else if let Some(below) = spec_path(*middle, target) {
                    lemma_recompute_with_level(below, l, Direction::Left, r, Direction::Right);
                } else if let Some(below) = spec_path(*right, target) {
                    lemma_recompute_with_level(below, l, Direction::Left, m, Direction::Middle);
                }
            }
        },
    }
}

impl MerkleTree {
    /// Searches the tree for the hash of `data` and returns the evidence of
    /// the first vertex found that stores it: none where the tree is empty or
    /// no vertex stores that hash. A proof that is returned checks as valid
    /// against the root's hash.
    pub fn generate_proof(&self, data: &str) -> (result: Option<Proof>)
        ensures
            match result {
                Some(proof) => spec_generate(self@, data@) == Some(proof@),
                None => spec_generate(self@, data@) is None,
            },
            result is Some <==> (self@ matches Some(root) && root.contains_hash(
                spec_hash_item(data@),
            )),
            result matches Some(proof) ==> proof@.check(self@.unwrap().spec_hash())
                == ProofOutcome::Valid,
    {
        let target_hash = match self.calculate_hash(data) {
            Some(h) => h,
            None => {
                return None;
            },
        };
        let root = match self.root() {
            Some(node) => node,
            None => {
                return None;
            },
        };
        proof {
            lemma_path_found(*root, target_hash);
        }
        let mut proof_hashes: Vec<u64> = Vec::new();
        let mut proof_directions: Vec<Direction> = Vec::new();
        let found = self.proof_recursion(
            root,
            target_hash,
            &mut proof_hashes,
            &mut proof_directions,
        );
        if found {
            let proof = Proof { target_hash, proof_hashes, proof_directions };
            assert(proof@ =~= spec_path(*root, target_hash).unwrap());
            Some(proof)
        } else {
            None
        }
    }

    /// Searches the subtree under `node` for `target_hash`, depth first and
    /// left to right. Where it is found, the evidence of the way up to `node`
    /// is appended to the two vectors, innermost level first; where it is
    /// not, the vectors stay as they were.
    pub fn proof_recursion(
        &self,
        node: &Node,
        target_hash: u64,
        proof_hashes: &mut Vec<u64>,
        proof_directions: &mut Vec<Direction>,
    ) -> (found: bool)
        ensures
            found == spec_path(*node, target_hash).is_some(),
            match spec_path(*node, target_hash) {
                Some(evidence) => {
                    &&& final(proof_hashes)@ == old(proof_hashes)@ + evidence.hashes
                    &&& final(proof_directions)@ == old(proof_directions)@ + evidence.directions
                },
                None => {
                    &&& final(proof_hashes)@ == old(proof_hashes)@
                    &&& final(proof_directions)@ == old(proof_directions)@
                },
            },
        decreases node,
    {
        match node {
            Node::Leaf { hash, .. } => *hash == target_hash,
            Node::Branch { hash, left, middle, right } => {
                if *hash == target_hash {
                    true
                } else if self.proof_recursion(
                    &**left,
                    target_hash,
                    proof_hashes,
                    proof_directions,
                ) {
                    proof_hashes.push(middle.get_hash());
                    proof_directions.push(Direction::Middle);
                    proof_hashes.push(right.get_hash());
                    proof_directions.push(Direction::Right);
                    true
                } else if self.proof_recursion(
                    &**middle,
                    target_hash,
                    proof_hashes,
                    proof_directions,
                ) {
                    proof_hashes.push(left.get_hash());
                    proof_directions.push(Direction::Left);
                    proof_hashes.push(right.get_hash());
                    proof_directions.push(Direction::Right);
                    true
                } else if self.proof_recursion(
                    &**right,
                    target_hash,
                    proof_hashes,
                    proof_directions,
                ) {
                    proof_hashes.push(left.get_hash());
                    proof_directions.push(Direction::Left);
                    proof_hashes.push(middle.get_hash());
                    proof_directions.push(Direction::Middle);
                    true
                } else {
                    false
                }
            },
        }
    }
}

/// Computes the hash one level up from `current` and its two siblings.
pub fn level_hash(
    current: u64,
    first: u64,
    first_slot: Direction,
    second: u64,
    second_slot: Direction,
) -> (above: Option<u64>)
    ensures
        above == spec_level_hash(current, first, first_slot, second, second_slot),
{
    match (first_slot, second_slot) {
        (Direction::Middle, Direction::Right) => Some(aggregate(current, first, second)),
        (Direction::Left, Direction::Right) => Some(aggregate(first, current, second)),
        (Direction::Left, Direction::Middle) => Some(aggregate(first, second, current)),
        _ => None,
    }
}

/// Walks the proof from its target outward and compares what it arrives at
/// with `expected_root`, telling a proof that cannot be walked from one that
/// arrives elsewhere.
pub fn check_proof(proof: &Proof, expected_root: u64) -> (outcome: ProofOutcome)
    ensures
        outcome == proof@.check(expected_root),
{
    let mut current = proof.target_hash;
    let mut i: usize = 0;
    assert(proof.proof_hashes@.skip(0) =~= proof.proof_hashes@);
    assert(proof.proof_directions@.skip(0) =~= proof.proof_directions@);
    while i < proof.proof_hashes.len() || i < proof.proof_directions.len()
        invariant
            i <= proof.proof_hashes@.len(),
            i <= proof.proof_directions@.len(),
            proof@.recompute() == (Evidence {
                start: current,
                hashes: proof.proof_hashes@.skip(i as int),
                directions: proof.proof_directions@.skip(i as int),
            }).recompute(),
        decreases proof.proof_hashes@.len() - i,
    {
        if proof.proof_hashes.len() - i < 2 || proof.proof_directions.len() - i < 2 {
            return ProofOutcome::Malformed;
        }
        let ghost here = Evidence {
            start: current,
            hashes: proof.proof_hashes@.skip(i as int),
            directions: proof.proof_directions@.skip(i as int),
        };
        let above = level_hash(
            current,
            proof.proof_hashes[i],
            proof.proof_directions[i],
            proof.proof_hashes[i + 1],
            proof.proof_directions[i + 1],
        );
        match above {
            Some(h) => {
                assert(here.hashes.skip(2) == proof.proof_hashes@.skip(i + 2));
                assert(here.directions.skip(2) == proof.proof_directions@.skip(i + 2));
                current = h;
                i = i + 2;
            },
            None => {
                return ProofOutcome::Malformed;
            },
        }
    }
    if current == expected_root {
        ProofOutcome::Valid
    } else {
        ProofOutcome::HashMismatch
    }
}

/// True exactly when the proof recomputes `expected_root`.
pub fn verify_proof(proof: &Proof, expected_root: u64) -> (valid: bool)
    ensures
        valid == (proof@.check(expected_root) == ProofOutcome::Valid),
{
    check_proof(proof, expected_root) == ProofOutcome::Valid
}

} // verus!
