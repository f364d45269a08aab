use aligned_sdk::errors::SubmitError;
use aligned_sdk::types::{
    parse_proving_system, ProvingSystemId, VerificationData, VerificationDataCommitment,
};
use sha3::Digest;

fn keccak(data: &[u8]) -> [u8; 32] {
    sha3::Keccak256::digest(data).into()
}

fn groth16_data(proof: Vec<u8>, pub_input: Vec<u8>, vk: Vec<u8>) -> VerificationData {
    VerificationData::new(
        ProvingSystemId::Groth16Bn254,
        proof,
        Some(pub_input),
        Some(vk),
        None,
        [7u8; 20],
    )
    .unwrap()
}

#[test]
fn commitment_is_deterministic() {
    let v = groth16_data(vec![1, 2, 3], vec![4, 5], vec![6]);
    let c1 = VerificationDataCommitment::from_data(&v);
    let c2 = VerificationDataCommitment::from_data(&v);
    assert_eq!(c1, c2);
}

#[test]
fn commitment_changes_with_any_field() {
    let base = groth16_data(vec![1, 2, 3], vec![4, 5], vec![6]);
    let c = VerificationDataCommitment::from_data(&base);

    let other_proof = groth16_data(vec![1, 2, 4], vec![4, 5], vec![6]);
    assert_ne!(c, VerificationDataCommitment::from_data(&other_proof));

    let other_input = groth16_data(vec![1, 2, 3], vec![4, 6], vec![6]);
    assert_ne!(c, VerificationDataCommitment::from_data(&other_input));

    let other_vk = groth16_data(vec![1, 2, 3], vec![4, 5], vec![7]);
    assert_ne!(c, VerificationDataCommitment::from_data(&other_vk));

    let mut other_addr = groth16_data(vec![1, 2, 3], vec![4, 5], vec![6]);
    other_addr.proof_generator_addr = [8u8; 20];
    assert_ne!(c, VerificationDataCommitment::from_data(&other_addr));
}

#[test]
fn absent_pub_input_commits_to_zero_bytes() {
    let v = VerificationData::new(
        ProvingSystemId::SP1,
        vec![1, 2, 3],
        None,
        None,
        Some(vec![9, 9]),
        [0u8; 20],
    )
    .unwrap();
    let c = VerificationDataCommitment::from_data(&v);
    assert_eq!(c.pub_input_commitment, [0u8; 32]);
    // Absence is 32 zero bytes, not the hash of the empty byte string.
    assert_ne!(c.pub_input_commitment, keccak(&[]));
}

#[test]
fn sp1_end_to_end_commitment_values() {
    let v = VerificationData::new(
        ProvingSystemId::SP1,
        vec![1, 2, 3],
        None,
        None,
        Some(vec![9, 9]),
        [0u8; 20],
    )
    .unwrap();
    let c = VerificationDataCommitment::from_data(&v);
    assert_eq!(c.proof_commitment, keccak(&[1, 2, 3]));
    assert_eq!(c.proving_system_aux_data_commitment, keccak(&[9, 9]));
    assert_eq!(c.pub_input_commitment, [0u8; 32]);
    assert_eq!(c.proof_generator_addr, [0u8; 20]);
}

#[test]
fn parse_proving_system_accepts_every_tag() {
    assert_eq!(
        parse_proving_system("GnarkPlonkBls12_381").unwrap(),
        ProvingSystemId::GnarkPlonkBls12_381
    );
    assert_eq!(
        parse_proving_system("GnarkPlonkBn254").unwrap(),
        ProvingSystemId::GnarkPlonkBn254
    );
    assert_eq!(
        parse_proving_system("Groth16Bn254").unwrap(),
        ProvingSystemId::Groth16Bn254
    );
    assert_eq!(parse_proving_system("SP1").unwrap(), ProvingSystemId::SP1);
    assert_eq!(parse_proving_system("Halo2KZG").unwrap(), ProvingSystemId::Halo2KZG);
    assert_eq!(parse_proving_system("Halo2IPA").unwrap(), ProvingSystemId::Halo2IPA);
}

#[test]
fn parse_proving_system_rejects_unknown_tag() {
    match parse_proving_system("sp1") {
        Err(SubmitError::InvalidProvingSystem(tag)) => assert_eq!(tag, "sp1"),
        other => panic!("expected an invalid-proving-system error, got {:?}", other),
    }
}

#[test]
fn default_proving_system_is_sp1() {
    assert_eq!(ProvingSystemId::default(), ProvingSystemId::SP1);
}

#[test]
fn missing_vm_program_is_rejected() {
    match VerificationData::new(ProvingSystemId::SP1, vec![1], None, None, None, [0u8; 20]) {
        Err(SubmitError::MissingParameter(p)) => assert_eq!(p, "--vm_program"),
        other => panic!("expected a missing-parameter error, got {:?}", other),
    }
}

#[test]
fn missing_verification_key_is_rejected() {
    match VerificationData::new(
        ProvingSystemId::Halo2KZG,
        vec![1],
        Some(vec![2]),
        None,
        None,
        [0u8; 20],
    ) {
        Err(SubmitError::MissingParameter(p)) => assert_eq!(p, "--vk"),
        other => panic!("expected a missing-parameter error, got {:?}", other),
    }
}

#[test]
fn missing_pub_input_is_rejected() {
    match VerificationData::new(
        ProvingSystemId::Halo2KZG,
        vec![1],
        None,
        Some(vec![2]),
        None,
        [0u8; 20],
    ) {
        Err(SubmitError::MissingParameter(p)) => assert_eq!(p, "--public_input"),
        other => panic!("expected a missing-parameter error, got {:?}", other),
    }
}

#[test]
fn sp1_with_verification_key_is_rejected() {
    match VerificationData::new(
        ProvingSystemId::SP1,
        vec![1],
        None,
        Some(vec![2]),
        Some(vec![3]),
        [0u8; 20],
    ) {
        Err(SubmitError::UnexpectedParameter(p)) => assert_eq!(p, "--vk"),
        other => panic!("expected an unexpected-parameter error, got {:?}", other),
    }
}

#[test]
fn vm_program_outside_sp1_is_rejected() {
    match VerificationData::new(
        ProvingSystemId::Groth16Bn254,
        vec![1],
        Some(vec![2]),
        Some(vec![3]),
        Some(vec![4]),
        [0u8; 20],
    ) {
        Err(SubmitError::UnexpectedParameter(p)) => assert_eq!(p, "--vm_program"),
        other => panic!("expected an unexpected-parameter error, got {:?}", other),
    }
}
