use aligned_sdk::merkle::{MerkleProof, MerkleTree};
use aligned_sdk::onchain::{
    batch_inclusion_data_file_name, encode_decimal, encode_hex, flatten_merkle_path,
    get_verification_key_commitment, VerifyBatchInclusionArgs,
};
use aligned_sdk::protocol::AlignedVerificationData;
use aligned_sdk::types::{ProvingSystemId, VerificationData, VerificationDataCommitment};
use sha3::Digest;

#[test]
fn flattening_concatenates_the_path_in_order() {
    let proof = MerkleProof { merkle_path: vec![[1u8; 32], [2u8; 32]] };
    let flat = flatten_merkle_path(&proof);
    assert_eq!(flat.len(), 64);
    assert_eq!(&flat[..32], &[1u8; 32]);
    assert_eq!(&flat[32..], &[2u8; 32]);
}

#[test]
fn call_arguments_copy_every_field_byte_for_byte() {
    let v = VerificationData::new(
        ProvingSystemId::SP1,
        vec![1, 2, 3],
        None,
        None,
        Some(vec![9, 9]),
        [5u8; 20],
    )
    .unwrap();
    let commitment = VerificationDataCommitment::from_data(&v);
    let tree = MerkleTree::build(&vec![commitment, commitment]).unwrap();
    let proof = tree.get_proof_by_pos(1).unwrap();
    let avd = AlignedVerificationData {
        verification_data_commitment: commitment,
        batch_merkle_root: tree.root,
        batch_inclusion_proof: proof,
        index_in_batch: 1,
    };
    let args = VerifyBatchInclusionArgs::from_aligned_data(&avd);
    assert_eq!(args.proof_commitment, commitment.proof_commitment);
    assert_eq!(args.pub_input_commitment, commitment.pub_input_commitment);
    assert_eq!(
        args.proving_system_aux_data_commitment,
        commitment.proving_system_aux_data_commitment
    );
    assert_eq!(args.proof_generator_addr, [5u8; 20]);
    assert_eq!(args.batch_merkle_root, tree.root);
    assert_eq!(args.merkle_proof, flatten_merkle_path(&avd.batch_inclusion_proof));
    assert_eq!(args.index_in_batch, 1);
}

#[test]
fn hex_encoding_is_lowercase_two_chars_per_byte() {
    assert_eq!(encode_hex(&vec![0x00, 0xab, 0xff]), b"00abff".to_vec());
    assert_eq!(encode_hex(&Vec::new()), Vec::<u8>::new());
}

#[test]
fn decimal_encoding_writes_plain_numbers() {
    assert_eq!(encode_decimal(0), b"0".to_vec());
    assert_eq!(encode_decimal(7), b"7".to_vec());
    assert_eq!(encode_decimal(10), b"10".to_vec());
    assert_eq!(encode_decimal(12345), b"12345".to_vec());
}

#[test]
fn artifact_file_name_uses_root_prefix_and_index() {
    let mut root = [0u8; 32];
    root[0] = 0xde;
    root[1] = 0xad;
    root[2] = 0xbe;
    root[3] = 0xef;
    assert_eq!(batch_inclusion_data_file_name(&root, 3), b"deadbeef_3.json".to_vec());
    assert_eq!(batch_inclusion_data_file_name(&root, 42), b"deadbeef_42.json".to_vec());
}

#[test]
fn verification_key_commitment_is_the_keccak_hash() {
    let content = vec![1u8, 2, 3, 4];
    let expected: [u8; 32] = sha3::Keccak256::digest(&content).into();
    assert_eq!(get_verification_key_commitment(&content), expected);
}
