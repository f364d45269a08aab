use aligned_sdk::merkle::{BatchInclusionData, MerkleTree, VerificationCommitmentBatch};
use aligned_sdk::types::{ProvingSystemId, VerificationData, VerificationDataCommitment};
use sha3::Digest;

fn keccak(data: &[u8]) -> [u8; 32] {
    sha3::Keccak256::digest(data).into()
}

fn commitment(tag: u8) -> VerificationDataCommitment {
    let v = VerificationData::new(
        ProvingSystemId::SP1,
        vec![tag, tag + 1],
        None,
        None,
        Some(vec![tag, 9]),
        [tag; 20],
    )
    .unwrap();
    VerificationDataCommitment::from_data(&v)
}

fn commitments(n: u8) -> Vec<VerificationDataCommitment> {
    (0..n).map(commitment).collect()
}

#[test]
fn two_leaf_root_is_parent_of_leaf_hashes() {
    let leaves = commitments(2);
    let tree = MerkleTree::build(&leaves).unwrap();
    let h0 = VerificationCommitmentBatch::hash_data(&leaves[0]);
    let h1 = VerificationCommitmentBatch::hash_data(&leaves[1]);
    let mut joined = Vec::new();
    joined.extend_from_slice(&h0);
    joined.extend_from_slice(&h1);
    assert_eq!(tree.root, keccak(&joined));
    assert_eq!(tree.root, VerificationCommitmentBatch::hash_new_parent(&h0, &h1));
}

#[test]
fn three_leaf_root_duplicates_last_leaf() {
    let leaves = commitments(3);
    let tree = MerkleTree::build(&leaves).unwrap();
    let h0 = VerificationCommitmentBatch::hash_data(&leaves[0]);
    let h1 = VerificationCommitmentBatch::hash_data(&leaves[1]);
    let h2 = VerificationCommitmentBatch::hash_data(&leaves[2]);
    let p01 = VerificationCommitmentBatch::hash_new_parent(&h0, &h1);
    let p22 = VerificationCommitmentBatch::hash_new_parent(&h2, &h2);
    let root = VerificationCommitmentBatch::hash_new_parent(&p01, &p22);
    assert_eq!(tree.root, root);
}

#[test]
fn single_leaf_root_is_the_leaf_hash() {
    let leaves = commitments(1);
    let tree = MerkleTree::build(&leaves).unwrap();
    assert_eq!(tree.root, VerificationCommitmentBatch::hash_data(&leaves[0]));
    let proof = tree.get_proof_by_pos(0).unwrap();
    assert_eq!(proof.merkle_path.len(), 0);
    assert!(proof.verify(&tree.root, 0, &leaves[0]));
}

#[test]
fn inclusion_proof_round_trip_for_every_size_and_index() {
    for n in 1..=8u8 {
        let leaves = commitments(n);
        let tree = MerkleTree::build(&leaves).unwrap();
        for i in 0..n as usize {
            let proof = tree.get_proof_by_pos(i).unwrap();
            assert!(
                proof.verify(&tree.root, i, &leaves[i]),
                "round trip failed for size {} index {}",
                n,
                i
            );
        }
    }
}

#[test]
fn tampering_breaks_verification() {
    let leaves = commitments(5);
    let tree = MerkleTree::build(&leaves).unwrap();
    let proof = tree.get_proof_by_pos(2).unwrap();
    assert!(proof.verify(&tree.root, 2, &leaves[2]));

    // A flipped bit in the sibling path.
    let mut bad_path = proof.clone();
    bad_path.merkle_path[0][0] ^= 1;
    assert!(!bad_path.verify(&tree.root, 2, &leaves[2]));

    // A wrong index.
    assert!(!proof.verify(&tree.root, 3, &leaves[2]));

    // A different leaf.
    assert!(!proof.verify(&tree.root, 2, &leaves[3]));

    // A flipped bit in the root.
    let mut bad_root = tree.root;
    bad_root[31] ^= 1;
    assert!(!proof.verify(&bad_root, 2, &leaves[2]));
}

#[test]
fn empty_batch_has_no_tree() {
    assert!(MerkleTree::build(&Vec::new()).is_none());
}

#[test]
fn proof_position_out_of_range_is_rejected() {
    let leaves = commitments(4);
    let tree = MerkleTree::build(&leaves).unwrap();
    assert!(tree.get_proof_by_pos(4).is_none());
}

#[test]
fn batch_inclusion_data_carries_root_proof_and_index() {
    let leaves = commitments(4);
    let tree = MerkleTree::build(&leaves).unwrap();
    let data = BatchInclusionData::new(1, &tree);
    assert_eq!(data.batch_merkle_root, tree.root);
    assert_eq!(data.index_in_batch, 1);
    assert!(data.batch_inclusion_proof.verify(&tree.root, 1, &leaves[1]));
}
