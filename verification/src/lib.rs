//! A ternary Merkle tree over an ordered list of text items.
//!
//! Every internal node has exactly three children; a level whose length is
//! not a multiple of three is completed by repeating the first node of its
//! last group. A membership proof lists, level by level from the matched
//! node up to the root, the hashes of the two sibling subtrees together with
//! the slots they occupy, so the root can be recomputed from the proof alone.

pub mod hash;
pub mod laws;
pub mod membership;
pub mod node;
pub mod tree;

pub use hash::{aggregate, hash_item, spec_aggregate, spec_hash_item};
pub use membership::{
    check_proof, level_hash, spec_generate, spec_level_hash, spec_path, verify_proof, Direction,
    Evidence, Proof, ProofOutcome,
};
pub use node::{spec_branch, spec_leaf, Node};
pub use tree::{spec_build, spec_group, spec_leaves, spec_next_level, spec_root_hash, MerkleTree};
