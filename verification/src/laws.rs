//! What holds of the tree and its proofs as a whole, stated over the
//! functions that the operations are specified with.

use crate::hash::{spec_aggregate, spec_hash_item};
use crate::membership::{lemma_path_found, spec_generate, Evidence, ProofOutcome};
use crate::tree::{
    lemma_build_keeps_hashes, lemma_build_leaf_source, lemma_build_same_hashes, lemma_build_wf,
    spec_build, spec_leaves, spec_next_level, spec_root_hash,
};
use vstd::prelude::*;

verus! {

/// Building is a function of the items' texts: two lists that agree text by
/// text give the same root hash, or both give none.
pub proof fn lemma_root_hash_deterministic(first: Seq<String>, second: Seq<String>)
    requires
        first.len() == second.len(),
        forall|i: int| 0 <= i < first.len() ==> (#[trigger] first[i])@ == second[i]@,
    ensures
        spec_root_hash(first) == spec_root_hash(second),
{
    let a = spec_leaves(first);
    let b = spec_leaves(second);
    assert forall|i: int| 0 <= i < a.len() implies (#[trigger] a[i]).spec_hash()
        == b[i].spec_hash() by {
        assert(first[i]@ == second[i]@);
    }
    lemma_build_same_hashes(a, b);
}

/// The root over a single item is that item's leaf, so the root hash is the
/// item's hash.
pub proof fn lemma_singleton_root(item: String)
    ensures
        spec_root_hash(seq![item]) == Some(spec_hash_item(item@)),
{
    let level = spec_leaves(seq![item]);
    assert(level.len() == 1);
    assert(level[0].spec_hash() == spec_hash_item(item@));
}

/// Two items make one branch, whose right slot repeats the first item: the
/// root hash aggregates the first hash, the second hash and the first again.
pub proof fn lemma_pair_root(first: String, second: String)
    ensures
        spec_root_hash(seq![first, second]) == Some(
            spec_aggregate(
                spec_hash_item(first@),
                spec_hash_item(second@),
                spec_hash_item(first@),
            ),
        ),
{
    let level = spec_leaves(seq![first, second]);
    let next = spec_next_level(level);
    assert(level.len() == 2);
    assert(next.len() == 1);
    assert(spec_build(level) == spec_build(next));
    assert(spec_build(next) == Some(next[0]));
}

/// Every item of the list has a proof in the tree built from the list, and
/// that proof checks as valid against the tree's root hash.
pub proof fn lemma_member_has_valid_proof(items: Seq<String>, i: int)
    requires
        0 <= i < items.len(),
    ensures
        spec_root_hash(items) is Some,
        spec_generate(spec_build(spec_leaves(items)), items[i]@) matches Some(evidence)
            && evidence.start == spec_hash_item(items[i]@) && evidence.check(
            spec_root_hash(items).unwrap(),
        ) == ProofOutcome::Valid,
{
    let level = spec_leaves(items);
    let target = spec_hash_item(items[i]@);
    assert(level[i].contains_hash(target));
    lemma_build_keeps_hashes(level, i, target);
    lemma_build_wf(level);
    lemma_path_found(spec_build(level).unwrap(), target);
}

/// An item that is not in the list has no proof in the tree built from the
/// list, as long as its hash collides with nothing in the tree: no item of
/// the list with another text has the same hash, and no branch stores it.
pub proof fn lemma_absent_item_has_no_proof(items: Seq<String>, item: Seq<char>)
    requires
        forall|i: int| 0 <= i < items.len() ==> (#[trigger] items[i])@ != item,
        forall|i: int|
            0 <= i < items.len() && spec_hash_item((#[trigger] items[i])@) == spec_hash_item(item)
                ==> items[i]@ == item,
        spec_build(spec_leaves(items)) matches Some(root) ==> !root.branch_has_hash(
            spec_hash_item(item),
        ),
    ensures
        spec_generate(spec_build(spec_leaves(items)), item) is None,
{
    let level = spec_leaves(items);
    let target = spec_hash_item(item);
    if let Some(root) = spec_build(level) {
        lemma_path_found(root, target);
        root.lemma_contains_hash_split(target);
        if root.leaf_has_hash(target) {
            lemma_build_leaf_source(level, target);
            let k = choose|k: int| 0 <= k < level.len() && (#[trigger] level[k]).leaf_has_hash(
                target,
            );
            assert(spec_hash_item(items[k]@) == target);
        }
    }
}

/// Walking `first` and `second` side by side, level by level, the
/// aggregation never takes two different triples of child hashes to the
/// same hash.
pub open spec fn spec_walks_never_collide(first: Evidence, second: Evidence) -> bool
    decreases first.hashes.len(),
{
    if first.hashes.len() < 2 || first.directions.len() < 2 || second.hashes.len() < 2
        || second.directions.len() < 2 {
        true
    } else {
        match (first.children(), second.children()) {
            (Some(a), Some(b)) => {
                &&& a != b ==> spec_aggregate(a.0, a.1, a.2) != spec_aggregate(b.0, b.1, b.2)
                &&& spec_walks_never_collide(first.above(), second.above())
            },
            _ => true,
        }
    }
}

/// Two pieces of evidence with the same slots that differ in the hash they
/// start from or in any sibling hash arrive at different hashes, unless the
/// aggregation collides on the way.
pub proof fn lemma_different_evidence_different_top(first: Evidence, second: Evidence)
    requires
        first.recompute() is Some,
        first.directions == second.directions,
        first.hashes.len() == second.hashes.len(),
        first.start != second.start || first.hashes != second.hashes,
        spec_walks_never_collide(first, second),
    ensures
        second.recompute() is Some,
        second.recompute() != first.recompute(),
    decreases first.hashes.len(),
{
    if first.hashes.len() == 0 {
        assert(first.hashes =~= second.hashes);
    } else {
        let a = first.children().unwrap();
        let b = second.children().unwrap();
        if a == b {
            assert(first.above().hashes != second.above().hashes) by {
                if first.above().hashes == second.above().hashes {
                    assert forall|k: int| 0 <= k < first.hashes.len() implies first.hashes[k]
                        == second.hashes[k] by {
                        if k >= 2 {
                            assert(first.above().hashes[k - 2] == second.above().hashes[k - 2]);
                        }
                    }
                    assert(first.hashes =~= second.hashes);
                }
            }
        }
        lemma_different_evidence_different_top(first.above(), second.above());
    }
}

/// Replacing any one sibling hash of a valid proof by another value makes
/// the proof fail against the same root, unless the aggregation collides
/// on the way up from the replaced hash.
pub proof fn lemma_tamper_detected(evidence: Evidence, expected_root: u64, i: int, forged: u64)
    requires
        evidence.check(expected_root) == ProofOutcome::Valid,
        0 <= i < evidence.hashes.len(),
        forged != evidence.hashes[i],
        spec_walks_never_collide(
            evidence,
            Evidence { hashes: evidence.hashes.update(i, forged), ..evidence },
        ),
    ensures
        (Evidence { hashes: evidence.hashes.update(i, forged), ..evidence }).check(expected_root)
            == ProofOutcome::HashMismatch,
{
    let tampered = Evidence { hashes: evidence.hashes.update(i, forged), ..evidence };
    assert(tampered.hashes[i] != evidence.hashes[i]);
    lemma_different_evidence_different_top(evidence, tampered);
}

} // verus!
