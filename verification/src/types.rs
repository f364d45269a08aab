//! Verification data and its commitment: the deterministic reduction of a
//! proof/public-input/verification-key record to fixed-size digests that
//! serve as the Merkle leaf payload.
use crate::errors::SubmitError;
use crate::hash::{keccak256, keccak256_bytes};
use vstd::prelude::*;
use vstd::string::StrSliceExecFns;

verus! {

broadcast use vstd::array::group_array_axioms;

/// The closed set of supported proving systems. The variant selects which
/// auxiliary field of a `VerificationData` is mandatory.
#[derive(Clone, Copy, Debug, PartialEq, Eq, Structural)]
pub enum ProvingSystemId {
    GnarkPlonkBls12_381,
    GnarkPlonkBn254,
    Groth16Bn254,
    SP1,
    Halo2KZG,
    Halo2IPA,
}

impl Default for ProvingSystemId {
    fn default() -> (r: Self)
        ensures
            r == ProvingSystemId::SP1,
    {
        ProvingSystemId::SP1
    }
}

/// One proof submission: the proof bytes, the optional auxiliary inputs the
/// proving system calls for, and the submitter's 20-byte account identifier.
#[derive(Clone, Debug)]
pub struct VerificationData {
    pub proving_system: ProvingSystemId,
    pub proof: Vec<u8>,
    pub pub_input: Option<Vec<u8>>,
    pub verification_key: Option<Vec<u8>>,
    pub vm_program_code: Option<Vec<u8>>,
    pub proof_generator_addr: [u8; 20],
}

/// The fixed-size commitment a `VerificationData` reduces to; the Merkle
/// leaf payload.
#[derive(Clone, Copy, Debug, PartialEq, Eq)]
pub struct VerificationDataCommitment {
    pub proof_commitment: [u8; 32],
    pub pub_input_commitment: [u8; 32],
    /// Commits to the VM program code (for SP1) or to the verification key
    /// (for the other proving systems).
    pub proving_system_aux_data_commitment: [u8; 32],
    pub proof_generator_addr: [u8; 20],
}

/// The 32 zero bytes an absent optional field commits to. This stands for
/// absence on the wire; it is not the hash of the empty sequence.
pub open spec fn zero_digest() -> Seq<u8> {
    Seq::new(32, |i: int| 0u8)
}

/// What `pub_input_commitment` must be: the hash of the public input when
/// present, 32 zero bytes when absent.
pub open spec fn spec_pub_input_commitment(v: VerificationData) -> Seq<u8> {
    match v.pub_input {
        Option::Some(p) => keccak256(p@),
        Option::None => zero_digest(),
    }
}

/// What `proving_system_aux_data_commitment` must be: the hash of the VM
/// program code when present, else of the verification key when present,
/// else 32 zero bytes.
pub open spec fn spec_aux_data_commitment(v: VerificationData) -> Seq<u8> {
    match v.vm_program_code {
        Option::Some(code) => keccak256(code@),
        Option::None => match v.verification_key {
            Option::Some(key) => keccak256(key@),
            Option::None => zero_digest(),
        },
    }
}

/// `c` is the commitment of `v`: each digest field is the hash of its source
/// field (hashed independently, never concatenated at this stage), and the
/// account identifier is copied verbatim.
pub open spec fn is_commitment_of(c: VerificationDataCommitment, v: VerificationData) -> bool {
    &&& c.proof_commitment@ == keccak256(v.proof@)
    &&& c.pub_input_commitment@ == spec_pub_input_commitment(v)
    &&& c.proving_system_aux_data_commitment@ == spec_aux_data_commitment(v)
    &&& c.proof_generator_addr == v.proof_generator_addr
}

/// The executable form of `zero_digest`.
fn zero_commitment() -> (r: [u8; 32])
    ensures
        r@ == zero_digest(),
{
    let r: [u8; 32] = [0u8; 32];
    proof {
        assert(r@ =~= zero_digest());
    }
    r
}

impl VerificationData {
    /// The per-proving-system field-presence invariant: SP1 commits to a VM
    /// program image and must not also carry a verification key; every other
    /// system carries a verification key and a public input and no program
    /// image. Exactly one aux-data source is populated.
    pub open spec fn well_formed(self) -> bool {
        match self.proving_system {
            ProvingSystemId::SP1 => self.vm_program_code is Some
                && self.verification_key is None,
            _ => self.verification_key is Some && self.pub_input is Some
                && self.vm_program_code is None,
        }
    }

    /// Builds a record from the inputs a submission supplies, rejecting a
    /// missing mandatory field and a supplied field the chosen proving
    /// system refuses (never silently dropping it), before any network
    /// activity. Exactly one auxiliary-data source may be populated: the VM
    /// program code for SP1, the verification key for every other system.
    pub fn new(
        proving_system: ProvingSystemId,
        proof: Vec<u8>,
        pub_input: Option<Vec<u8>>,
        verification_key: Option<Vec<u8>>,
        vm_program_code: Option<Vec<u8>>,
        proof_generator_addr: [u8; 20],
    ) -> (r: Result<VerificationData, SubmitError>)
        ensures
            r is Ok <==> (match proving_system {
                ProvingSystemId::SP1 => vm_program_code is Some && verification_key is None,
                _ => verification_key is Some && pub_input is Some && vm_program_code is None,
            }),
            r matches Ok(v) ==> {
                &&& v.well_formed()
                &&& v.proving_system == proving_system
                &&& v.proof == proof
                &&& v.pub_input == pub_input
                &&& v.verification_key == verification_key
                &&& v.vm_program_code == vm_program_code
                &&& v.proof_generator_addr == proof_generator_addr
            },
            r matches Err(e) ==> (match proving_system {
                ProvingSystemId::SP1 => (if vm_program_code is None {
                    e matches SubmitError::MissingParameter(p) && p@ == "--vm_program"@
                } else {
                    e matches SubmitError::UnexpectedParameter(p) && p@ == "--vk"@
                }),
                _ => (if verification_key is None {
                    e matches SubmitError::MissingParameter(p) && p@ == "--vk"@
                } else if pub_input is None {
                    e matches SubmitError::MissingParameter(p) && p@ == "--public_input"@
                } else {
                    e matches SubmitError::UnexpectedParameter(p) && p@ == "--vm_program"@
                }),
            }),
    {
        match proving_system {
            ProvingSystemId::SP1 => {
                if vm_program_code.is_none() {
                    return Err(SubmitError::MissingParameter("--vm_program".to_owned()));
                }
                if verification_key.is_some() {
                    return Err(SubmitError::UnexpectedParameter("--vk".to_owned()));
                }
                Ok(VerificationData {
                    proving_system,
                    proof,
                    pub_input,
                    verification_key,
                    vm_program_code,
                    proof_generator_addr,
                })
            },
            _ => {
                if verification_key.is_none() {
                    return Err(SubmitError::MissingParameter("--vk".to_owned()));
                }
                if pub_input.is_none() {
                    return Err(SubmitError::MissingParameter("--public_input".to_owned()));
                }
                if vm_program_code.is_some() {
                    return Err(SubmitError::UnexpectedParameter("--vm_program".to_owned()));
                }
                Ok(VerificationData {
                    proving_system,
                    proof,
                    pub_input,
                    verification_key,
                    vm_program_code,
                    proof_generator_addr,
                })
            },
        }
    }
}

impl VerificationDataCommitment {
    /// Reduces a record to its commitment. Absent optional fields commit to
    /// 32 zero bytes, not to the hash of an empty sequence.
    pub fn from_data(verification_data: &VerificationData) -> (r: Self)
        ensures
            is_commitment_of(r, *verification_data),
    {
        let proof_commitment = keccak256_bytes(verification_data.proof.as_slice());
        let pub_input_commitment: [u8; 32] = match &verification_data.pub_input {
            Some(pub_input) => keccak256_bytes(pub_input.as_slice()),
            None => zero_commitment(),
        };
        let proving_system_aux_data_commitment: [u8; 32] =
            match &verification_data.vm_program_code {
            Some(vm_program_code) => keccak256_bytes(vm_program_code.as_slice()),
            None => match &verification_data.verification_key {
                Some(verification_key) => keccak256_bytes(verification_key.as_slice()),
                None => zero_commitment(),
            },
        };
        VerificationDataCommitment {
            proof_commitment,
            pub_input_commitment,
            proving_system_aux_data_commitment,
            proof_generator_addr: verification_data.proof_generator_addr,
        }
    }
}

impl Default for VerificationDataCommitment {
    fn default() -> (r: Self)
        ensures
            r.proof_commitment@ == zero_digest(),
            r.pub_input_commitment@ == zero_digest(),
            r.proving_system_aux_data_commitment@ == zero_digest(),
            r.proof_generator_addr@ == Seq::new(20, |i: int| 0u8),
    {
        let addr: [u8; 20] = [0u8; 20];
        proof {
            assert(addr@ =~= Seq::new(20, |i: int| 0u8));
        }
        VerificationDataCommitment {
            proof_commitment: zero_commitment(),
            pub_input_commitment: zero_commitment(),
            proving_system_aux_data_commitment: zero_commitment(),
            proof_generator_addr: addr,
        }
    }
}

/// Commitment determinism: the commitment is a function of the record's
/// fields alone, so any two commitments of one record are equal.
pub proof fn lemma_commitment_deterministic(
    v: VerificationData,
    c1: VerificationDataCommitment,
    c2: VerificationDataCommitment,
)
    requires
        is_commitment_of(c1, v),
        is_commitment_of(c2, v),
    ensures
        c1 == c2,
{
    assert(c1.proof_commitment =~= c2.proof_commitment);
    assert(c1.pub_input_commitment =~= c2.pub_input_commitment);
    assert(c1.proving_system_aux_data_commitment =~= c2.proving_system_aux_data_commitment);
}

/// Which variant a proving-system tag names, if any.
pub open spec fn proving_system_of_tag(s: Seq<char>) -> Option<ProvingSystemId> {
    if s == "GnarkPlonkBls12_381"@ {
        Some(ProvingSystemId::GnarkPlonkBls12_381)
    } else if s == "GnarkPlonkBn254"@ {
        Some(ProvingSystemId::GnarkPlonkBn254)
    } else if s == "Groth16Bn254"@ {
        Some(ProvingSystemId::Groth16Bn254)
    } else if s == "SP1"@ {
        Some(ProvingSystemId::SP1)
    } else if s == "Halo2KZG"@ {
        Some(ProvingSystemId::Halo2KZG)
    } else if s == "Halo2IPA"@ {
        Some(ProvingSystemId::Halo2IPA)
    } else {
        None
    }
}

/// Compares two string slices character by character.
fn str_eq(a: &str, b: &str) -> (r: bool)
    ensures
        r == (a@ == b@),
{
    let len = a.unicode_len();
    if len != b.unicode_len() {
        return false;
    }
    let mut i: usize = 0;
    while i < len
        invariant
            len == a@.len(),
            len == b@.len(),
            i <= len,
            forall|j: int| 0 <= j < i ==> a@[j] == b@[j],
        decreases len - i,
    {
        if a.get_char(i) != b.get_char(i) {
            return false;
        }
        i = i + 1;
    }
    proof {
        assert(a@ =~= b@);
    }
    true
}

/// Maps a proving-system tag to its variant, rejecting an unrecognized tag
/// (which the error carries) before any network activity.
pub fn parse_proving_system(proving_system: &str) -> (r: Result<ProvingSystemId, SubmitError>)
    ensures
        r is Ok <==> proving_system_of_tag(proving_system@) is Some,
        r matches Ok(id) ==> proving_system_of_tag(proving_system@) == Some(id),
        r matches Err(e) ==> (e matches SubmitError::InvalidProvingSystem(t)
            && t@ == proving_system@),
{
    if str_eq(proving_system, "GnarkPlonkBls12_381") {
        Ok(ProvingSystemId::GnarkPlonkBls12_381)
    } else if str_eq(proving_system, "GnarkPlonkBn254") {
        Ok(ProvingSystemId::GnarkPlonkBn254)
    } else if str_eq(proving_system, "Groth16Bn254") {
        Ok(ProvingSystemId::Groth16Bn254)
    } else if str_eq(proving_system, "SP1") {
        Ok(ProvingSystemId::SP1)
    } else if str_eq(proving_system, "Halo2KZG") {
        Ok(ProvingSystemId::Halo2KZG)
    } else if str_eq(proving_system, "Halo2IPA") {
        Ok(ProvingSystemId::Halo2IPA)
    } else {
        Err(SubmitError::InvalidProvingSystem(proving_system.to_owned()))
    }
}

} // verus!
