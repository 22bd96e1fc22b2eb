use merkle_tree::Direction::{Left, Middle, Right};
use merkle_tree::{
    aggregate, check_proof, level_hash, verify_proof, Direction, Proof, ProofOutcome,
};

fn proof_of(target_hash: u64, hashes: &[u64], directions: &[Direction]) -> Proof {
    Proof { target_hash, proof_hashes: hashes.to_vec(), proof_directions: directions.to_vec() }
}

#[test]
fn level_hash_puts_the_current_hash_in_the_free_slot() {
    assert_eq!(level_hash(1, 2, Middle, 3, Right), Some(aggregate(1, 2, 3)));
    assert_eq!(level_hash(1, 2, Left, 3, Right), Some(aggregate(2, 1, 3)));
    assert_eq!(level_hash(1, 2, Left, 3, Middle), Some(aggregate(2, 3, 1)));
}

#[test]
fn level_hash_refuses_slots_that_describe_no_branch() {
    assert_eq!(level_hash(1, 2, Left, 3, Left), None);
    assert_eq!(level_hash(1, 2, Middle, 3, Middle), None);
    assert_eq!(level_hash(1, 2, Right, 3, Right), None);
    assert_eq!(level_hash(1, 2, Middle, 3, Left), None);
    assert_eq!(level_hash(1, 2, Right, 3, Left), None);
    assert_eq!(level_hash(1, 2, Right, 3, Middle), None);
}

#[test]
fn proof_without_levels_is_valid_for_its_own_target_only() {
    let proof = proof_of(42, &[], &[]);
    assert_eq!(check_proof(&proof, 42), ProofOutcome::Valid);
    assert!(verify_proof(&proof, 42));
    assert_eq!(check_proof(&proof, 43), ProofOutcome::HashMismatch);
    assert!(!verify_proof(&proof, 43));
}

#[test]
fn proof_of_one_level_recomputes_the_branch() {
    let in_left = proof_of(10, &[20, 30], &[Middle, Right]);
    assert_eq!(check_proof(&in_left, aggregate(10, 20, 30)), ProofOutcome::Valid);
    assert_eq!(check_proof(&in_left, aggregate(20, 10, 30)), ProofOutcome::HashMismatch);

    let in_middle = proof_of(10, &[20, 30], &[Left, Right]);
    assert_eq!(check_proof(&in_middle, aggregate(20, 10, 30)), ProofOutcome::Valid);
    assert_eq!(check_proof(&in_middle, aggregate(10, 20, 30)), ProofOutcome::HashMismatch);

    let in_right = proof_of(10, &[20, 30], &[Left, Middle]);
    assert_eq!(check_proof(&in_right, aggregate(20, 30, 10)), ProofOutcome::Valid);
    assert_eq!(check_proof(&in_right, aggregate(20, 10, 30)), ProofOutcome::HashMismatch);
}

#[test]
fn proof_of_two_levels_walks_from_the_target_outward() {
    let proof = proof_of(1, &[2, 3, 4, 5], &[Left, Right, Left, Middle]);
    let inner = aggregate(2, 1, 3);
    let outer = aggregate(4, 5, inner);
    assert_eq!(check_proof(&proof, outer), ProofOutcome::Valid);
    assert!(verify_proof(&proof, outer));
    assert_eq!(check_proof(&proof, inner), ProofOutcome::HashMismatch);
    assert!(!verify_proof(&proof, inner));
}

#[test]
fn sequences_of_different_lengths_are_malformed() {
    let root = aggregate(10, 20, 30);
    let more_hashes = proof_of(10, &[20, 30, 40, 50], &[Middle, Right]);
    assert_eq!(check_proof(&more_hashes, root), ProofOutcome::Malformed);
    assert!(!verify_proof(&more_hashes, root));

    let more_directions = proof_of(10, &[20, 30], &[Middle, Right, Left, Middle]);
    assert_eq!(check_proof(&more_directions, root), ProofOutcome::Malformed);
    assert!(!verify_proof(&more_directions, root));

    let no_directions = proof_of(10, &[20, 30], &[]);
    assert_eq!(check_proof(&no_directions, 10), ProofOutcome::Malformed);

    let no_hashes = proof_of(10, &[], &[Middle, Right]);
    assert_eq!(check_proof(&no_hashes, 10), ProofOutcome::Malformed);

    let one_more_hash = proof_of(10, &[20, 30, 40], &[Middle, Right]);
    assert_eq!(check_proof(&one_more_hash, root), ProofOutcome::Malformed);
}

#[test]
fn a_level_with_one_sibling_is_malformed() {
    let single = proof_of(10, &[20], &[Middle]);
    assert_eq!(check_proof(&single, 10), ProofOutcome::Malformed);
    assert!(!verify_proof(&single, 10));

    let three = proof_of(10, &[20, 30, 40], &[Middle, Right, Left]);
    assert_eq!(check_proof(&three, aggregate(10, 20, 30)), ProofOutcome::Malformed);
}

#[test]
fn a_level_with_impossible_slots_is_malformed() {
    let pairs = [
        [Left, Left],
        [Middle, Middle],
        [Right, Right],
        [Middle, Left],
        [Right, Left],
        [Right, Middle],
    ];
    for pair in pairs {
        let proof = proof_of(10, &[20, 30], &pair);
        for root in [10, aggregate(10, 20, 30), aggregate(20, 10, 30), aggregate(20, 30, 10)] {
            assert_eq!(check_proof(&proof, root), ProofOutcome::Malformed);
            assert!(!verify_proof(&proof, root));
        }
    }
    let late = proof_of(10, &[20, 30, 40, 50], &[Middle, Right, Right, Left]);
    assert_eq!(check_proof(&late, aggregate(10, 20, 30)), ProofOutcome::Malformed);
}
