//! Message authentication: a client message wraps a record and a recoverable
//! signature over the record's commitment leaf hash — the very digest that
//! becomes the Merkle leaf — so a valid inclusion proof ties back to the
//! signer. The 32-byte digest is signed inside the standard signed-message
//! envelope (a fixed prefix, then the digest, hashed once more).
use crate::errors::SubmitError;
use crate::hash::{keccak256, keccak256_bytes};
use crate::merkle::VerificationCommitmentBatch;
use crate::types::{
    spec_aux_data_commitment, spec_pub_input_commitment, VerificationData,
    VerificationDataCommitment,
};
use vstd::prelude::*;

verus! {

/// Whether 32 bytes are a usable secret key (a nonzero scalar below the
/// curve order). Decided by the outside curve implementation; a function of
/// the bytes alone.
pub uninterp spec fn valid_secret_key(key: Seq<u8>) -> bool;

/// The 65-byte recoverable signature a secret key produces over a 32-byte
/// prehash. Deterministic (RFC 6979 nonces), so a function of key and
/// prehash alone.
pub uninterp spec fn eth_sign(key: Seq<u8>, prehash: Seq<u8>) -> Seq<u8>;

/// Whether deterministic signing succeeds for a valid key and a prehash.
/// The RFC 6979 nonce derivation uses no outside entropy, so success too is
/// a function of key and prehash alone; it fails only when the derived nonce
/// or a signature component comes out zero.
pub uninterp spec fn sign_ok(key: Seq<u8>, prehash: Seq<u8>) -> bool;

/// The 20-byte address recovered from a signature over a prehash, when
/// recovery succeeds. A function of prehash and signature alone.
pub uninterp spec fn eth_recover(prehash: Seq<u8>, signature: Seq<u8>) -> Option<Seq<u8>>;

/// The 20-byte account identifier derived from a secret key.
pub uninterp spec fn address_of_key(key: Seq<u8>) -> Seq<u8>;

/// Relies on k256's `SigningKey::from_slice` (succeeds exactly on the
/// nonzero scalars below the curve order) and ethers-signers'
/// `Wallet::sign_hash`: deterministic RFC 6979 ECDSA over the 32-byte
/// prehash with no added entropy, so whether it succeeds and what it returns
/// are both functions of key and prehash alone. The signature comes back in
/// the 65-byte r ‖ s ‖ v form, from which `Signature::recover` yields the
/// signing key's address.
#[verifier::external_body]
fn sign_prehash_bytes(key: &[u8; 32], prehash: &[u8; 32]) -> (r: Option<[u8; 65]>)
    ensures
        r is Some <==> (valid_secret_key(key@) && sign_ok(key@, prehash@)),
        r matches Some(sig) ==> sig@ == eth_sign(key@, prehash@),
        r matches Some(sig) ==> eth_recover(prehash@, sig@) == Some(address_of_key(key@)),
{
    let signing_key = ethers_core::k256::ecdsa::SigningKey::from_slice(key.as_slice()).ok()?;
    let wallet = ethers_signers::Wallet::from(signing_key);
    let signature = wallet.sign_hash(ethers_core::types::H256(*prehash)).ok()?;
    Some(signature.into())
}

/// Relies on ethers-core's `Signature::try_from` (65 bytes read as r, s, v)
/// and `Signature::recover` on a 32-byte prehash: the recovered 20-byte
/// address is a function of prehash and signature alone.
#[verifier::external_body]
fn recover_prehash_bytes(prehash: &[u8; 32], signature: &[u8; 65]) -> (r: Option<[u8; 20]>)
    ensures
        r is Some <==> eth_recover(prehash@, signature@) is Some,
        r matches Some(addr) ==> Some(addr@) == eth_recover(prehash@, signature@),
{
    let sig = ethers_core::types::Signature::try_from(signature.as_slice()).ok()?;
    let recovery = ethers_core::types::RecoveryMessage::Hash(ethers_core::types::H256(*prehash));
    let addr = sig.recover(recovery).ok()?;
    Some(addr.0)
}

/// The signed-message envelope's prefix for a 32-byte payload.
pub open spec fn signed_message_prefix() -> Seq<u8> {
    seq![
        0x19u8, 0x45u8, 0x74u8, 0x68u8, 0x65u8, 0x72u8, 0x65u8, 0x75u8, 0x6du8, 0x20u8, 0x53u8,
        0x69u8, 0x67u8, 0x6eu8, 0x65u8, 0x64u8, 0x20u8, 0x4du8, 0x65u8, 0x73u8, 0x73u8, 0x61u8,
        0x67u8, 0x65u8, 0x3au8, 0x0au8, 0x33u8, 0x32u8,
    ]
}

/// The digest actually signed: the envelope prefix, then the 32-byte
/// message, hashed once.
pub open spec fn signed_envelope_digest(message: Seq<u8>) -> Seq<u8> {
    keccak256(signed_message_prefix() + message)
}

/// Wraps a 32-byte digest in the signed-message envelope.
fn hash_eth_message(message: &[u8; 32]) -> (r: [u8; 32])
    ensures
        r@ == signed_envelope_digest(message@),
{
    let mut bytes: Vec<u8> = Vec::new();
    bytes.push(0x19u8);
    bytes.push(0x45u8);
    bytes.push(0x74u8);
    bytes.push(0x68u8);
    bytes.push(0x65u8);
    bytes.push(0x72u8);
    bytes.push(0x65u8);
    bytes.push(0x75u8);
    bytes.push(0x6du8);
    bytes.push(0x20u8);
    bytes.push(0x53u8);
    bytes.push(0x69u8);
    bytes.push(0x67u8);
    bytes.push(0x6eu8);
    bytes.push(0x65u8);
    bytes.push(0x64u8);
    bytes.push(0x20u8);
    bytes.push(0x4du8);
    bytes.push(0x65u8);
    bytes.push(0x73u8);
    bytes.push(0x73u8);
    bytes.push(0x61u8);
    bytes.push(0x67u8);
    bytes.push(0x65u8);
    bytes.push(0x3au8);
    bytes.push(0x0au8);
    bytes.push(0x33u8);
    bytes.push(0x32u8);
    proof {
        assert(bytes@ =~= signed_message_prefix());
    }
    bytes.extend_from_slice(message.as_slice());
    proof {
        assert(bytes@ =~= signed_message_prefix() + message@);
    }
    keccak256_bytes(bytes.as_slice())
}

/// The commitment leaf hash of a record, written directly over the record's
/// fields: the four commitment digests concatenated in order, hashed once.
pub open spec fn commitment_leaf_digest(v: VerificationData) -> Seq<u8> {
    keccak256(
        keccak256(v.proof@) + spec_pub_input_commitment(v) + spec_aux_data_commitment(v)
            + v.proof_generator_addr@,
    )
}

/// The prehash a client message's signature is over.
pub open spec fn signed_prehash(v: VerificationData) -> Seq<u8> {
    signed_envelope_digest(commitment_leaf_digest(v))
}

/// A record together with a recoverable signature over the hash of its
/// commitment (not over the raw proof bytes).
#[derive(Clone, Debug)]
pub struct ClientMessage {
    pub verification_data: VerificationData,
    pub signature: [u8; 65],
}

impl ClientMessage {
    /// Commits to the record, hashes the commitment into the leaf digest,
    /// and signs that digest: success exactly when the key is valid and the
    /// deterministic signing goes through. On success the signature recovers
    /// exactly the address derived from the key (the signature round trip).
    pub fn new(verification_data: VerificationData, key: &[u8; 32]) -> (r: Result<
        ClientMessage,
        SubmitError,
    >)
        ensures
            r is Ok <==> (valid_secret_key(key@) && sign_ok(
                key@,
                signed_prehash(verification_data),
            )),
            r matches Ok(m) ==> {
                &&& m.verification_data == verification_data
                &&& m.signature@ == eth_sign(key@, signed_prehash(verification_data))
                &&& eth_recover(signed_prehash(verification_data), m.signature@) == Some(
                    address_of_key(key@),
                )
            },
            r matches Err(e) ==> e is SignatureError,
    {
        let commitment = VerificationDataCommitment::from_data(&verification_data);
        let hashed_leaf = VerificationCommitmentBatch::hash_data(&commitment);
        let prehash = hash_eth_message(&hashed_leaf);
        match sign_prehash_bytes(key, &prehash) {
            Some(signature) => Ok(ClientMessage { verification_data, signature }),
            None => Err(SubmitError::SignatureError),
        }
    }

    /// Recomputes the signed digest from the carried record and recovers the
    /// submitter's address. Failure is an expected outcome of forged or
    /// malformed input, never a crash.
    pub fn verify_signature(&self) -> (r: Result<[u8; 20], SubmitError>)
        ensures
            r is Ok <==> eth_recover(
                signed_prehash(self.verification_data),
                self.signature@,
            ) is Some,
            r matches Ok(addr) ==> Some(addr@) == eth_recover(
                signed_prehash(self.verification_data),
                self.signature@,
            ),
            r matches Err(e) ==> e is SignatureError,
    {
        let commitment = VerificationDataCommitment::from_data(&self.verification_data);
        let hashed_leaf = VerificationCommitmentBatch::hash_data(&commitment);
        let prehash = hash_eth_message(&hashed_leaf);
        match recover_prehash_bytes(&prehash, &self.signature) {
            Some(addr) => Ok(addr),
            None => Err(SubmitError::SignatureError),
        }
    }
}

} // verus!
