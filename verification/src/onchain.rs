//! The on-chain inclusion check's client side: reconstructing the flat proof
//! bytes and the argument tuple of the read-only contract call from a
//! persisted record, byte-identically to what the chain-side verifier
//! expects, plus the artifact file's name and the auxiliary hex commitment
//! command's computation.
use crate::hash::{keccak256, keccak256_bytes};
use crate::merkle::MerkleProof;
use crate::protocol::AlignedVerificationData;
use vstd::prelude::*;

verus! {

/// A path's sibling digests concatenated in path order.
pub open spec fn flattened_path(path: Seq<[u8; 32]>) -> Seq<u8>
    decreases path.len(),
{
    if path.len() == 0 {
        Seq::empty()
    } else {
        path[0]@ + flattened_path(path.drop_first())
    }
}

/// Flattens an inclusion proof into the byte string the on-chain call takes.
pub fn flatten_merkle_path(batch_inclusion_proof: &MerkleProof) -> (r: Vec<u8>)
    ensures
        r@ == flattened_path(batch_inclusion_proof.merkle_path@),
{
    let path = &batch_inclusion_proof.merkle_path;
    let mut out: Vec<u8> = Vec::new();
    let mut i: usize = 0;
    proof {
        assert(path@.skip(0) =~= path@);
        assert(out@ + flattened_path(path@) =~= flattened_path(path@));
    }
    while i < path.len()
        invariant
            i <= path@.len(),
            out@ + flattened_path(path@.skip(i as int)) == flattened_path(path@),
        decreases path@.len() - i,
    {
        let ghost before = out@;
        out.extend_from_slice(path[i].as_slice());
        proof {
            assert(out@ =~= before + path@[i as int]@);
            assert(path@.skip(i as int)[0] == path@[i as int]);
            assert(path@.skip(i as int).drop_first() =~= path@.skip(i as int + 1));
            assert((before + path@[i as int]@) + flattened_path(path@.skip(i as int + 1)) =~= before
                + (path@[i as int]@ + flattened_path(path@.skip(i as int + 1))));
        }
        i = i + 1;
    }
    proof {
        assert(flattened_path(path@.skip(path@.len() as int)) =~= Seq::<u8>::empty());
        assert(out@ + Seq::<u8>::empty() =~= out@);
    }
    out
}

/// The seven arguments of the read-only on-chain function, in the order and
/// shapes the contract expects.
pub struct VerifyBatchInclusionArgs {
    pub proof_commitment: [u8; 32],
    pub pub_input_commitment: [u8; 32],
    pub proving_system_aux_data_commitment: [u8; 32],
    pub proof_generator_addr: [u8; 20],
    pub batch_merkle_root: [u8; 32],
    pub merkle_proof: Vec<u8>,
    pub index_in_batch: usize,
}

impl VerifyBatchInclusionArgs {
    /// Assembles the call's arguments from a persisted record: the four
    /// commitment fields, the batch root, the flattened proof bytes, and the
    /// leaf's index, each copied byte-identically.
    pub fn from_aligned_data(aligned_verification_data: &AlignedVerificationData) -> (r: Self)
        ensures
            r.proof_commitment == aligned_verification_data.verification_data_commitment
                .proof_commitment,
            r.pub_input_commitment == aligned_verification_data.verification_data_commitment
                .pub_input_commitment,
            r.proving_system_aux_data_commitment == aligned_verification_data
                .verification_data_commitment.proving_system_aux_data_commitment,
            r.proof_generator_addr == aligned_verification_data.verification_data_commitment
                .proof_generator_addr,
            r.batch_merkle_root == aligned_verification_data.batch_merkle_root,
            r.merkle_proof@ == flattened_path(
                aligned_verification_data.batch_inclusion_proof.merkle_path@,
            ),
            r.index_in_batch == aligned_verification_data.index_in_batch,
    {
        VerifyBatchInclusionArgs {
            proof_commitment: aligned_verification_data.verification_data_commitment
                .proof_commitment,
            pub_input_commitment: aligned_verification_data.verification_data_commitment
                .pub_input_commitment,
            proving_system_aux_data_commitment: aligned_verification_data
                .verification_data_commitment.proving_system_aux_data_commitment,
            proof_generator_addr: aligned_verification_data.verification_data_commitment
                .proof_generator_addr,
            batch_merkle_root: aligned_verification_data.batch_merkle_root,
            merkle_proof: flatten_merkle_path(&aligned_verification_data.batch_inclusion_proof),
            index_in_batch: aligned_verification_data.index_in_batch,
        }
    }
}

/// The ASCII code of a nibble's lowercase hex character.
pub open spec fn hex_char(nibble: u8) -> u8
    recommends
        nibble < 16,
{
    if nibble < 10 {
        (0x30 + nibble) as u8
    } else {
        (0x57 + nibble) as u8
    }
}

/// The lowercase hex encoding of a byte string, as ASCII codes.
pub open spec fn hex_bytes(data: Seq<u8>) -> Seq<u8> {
    Seq::new(
        data.len() * 2,
        |i: int|
            if i % 2 == 0 {
                hex_char(data[i / 2] / 16)
            } else {
                hex_char(data[i / 2] % 16)
            },
    )
}

/// The executable form of `hex_char`.
fn hex_char_of(nibble: u8) -> (r: u8)
    requires
        nibble < 16,
    ensures
        r == hex_char(nibble),
{
    if nibble < 10 {
        0x30 + nibble
    } else {
        0x57 + nibble
    }
}

/// Encodes bytes as lowercase hex, two characters per byte.
pub fn encode_hex(data: &Vec<u8>) -> (r: Vec<u8>)
    ensures
        r@ == hex_bytes(data@),
{
    let mut out: Vec<u8> = Vec::new();
    let mut i: usize = 0;
    while i < data.len()
        invariant
            i <= data@.len(),
            out@.len() == 2 * i,
            forall|k: int| 0 <= k < out@.len() ==> out@[k] == hex_bytes(data@)[k],
        decreases data@.len() - i,
    {
        let b = data[i];
        out.push(hex_char_of(b / 16));
        out.push(hex_char_of(b % 16));
        i = i + 1;
    }
    proof {
        assert(out@ =~= hex_bytes(data@));
    }
    out
}

/// The decimal digits of a non-negative number, as ASCII codes, most
/// significant first.
pub open spec fn decimal_digits(n: int) -> Seq<u8>
    recommends
        n >= 0,
    decreases n,
    when n >= 0
{
    if n < 10 {
        seq![(0x30 + n) as u8]
    } else {
        decimal_digits(n / 10).push((0x30 + n % 10) as u8)
    }
}

/// A byte string read back to front.
pub open spec fn reversed(s: Seq<u8>) -> Seq<u8>
    decreases s.len(),
{
    if s.len() == 0 {
        Seq::empty()
    } else {
        seq![s.last()] + reversed(s.drop_last())
    }
}

/// Reading back to front lands each byte at the mirrored position.
proof fn lemma_reversed_index(s: Seq<u8>)
    ensures
        reversed(s).len() == s.len(),
        forall|k: int| 0 <= k < s.len() ==> #[trigger] reversed(s)[k] == s[s.len() - 1 - k],
    decreases s.len(),
{
    if s.len() > 0 {
        lemma_reversed_index(s.drop_last());
        assert forall|k: int|
            0 <= k < s.len() implies #[trigger] reversed(s)[k] == s[s.len() - 1 - k] by {
            if k > 0 {
                assert(reversed(s)[k] == reversed(s.drop_last())[k - 1]);
                assert(s.drop_last()[s.len() - 1 - k] == s[s.len() - 1 - k]);
            }
        }
    }
}

/// Writes a number in decimal, most significant digit first.
pub fn encode_decimal(n: usize) -> (r: Vec<u8>)
    ensures
        r@ == decimal_digits(n as int),
{
    let mut low_first: Vec<u8> = Vec::new();
    let mut m: usize = n;
    while m >= 10
        invariant
            decimal_digits(n as int) == decimal_digits(m as int) + reversed(low_first@),
        decreases m,
    {
        let d: u8 = 0x30 + (m % 10) as u8;
        let ghost before = low_first@;
        low_first.push(d);
        proof {
            assert(low_first@.drop_last() =~= before);
            assert(reversed(low_first@) == seq![d] + reversed(before));
            assert(decimal_digits(m as int) == decimal_digits(m as int / 10).push(d));
            assert(decimal_digits(m as int / 10).push(d) + reversed(before) =~= decimal_digits(
                m as int / 10,
            ) + (seq![d] + reversed(before)));
            assert(m as int / 10 == (m / 10) as int);
        }
        m = m / 10;
    }
    let top: u8 = 0x30 + (m % 10) as u8;
    let ghost before = low_first@;
    low_first.push(top);
    proof {
        assert(low_first@.drop_last() =~= before);
        assert(reversed(low_first@) == seq![top] + reversed(before));
        assert(decimal_digits(m as int) =~= seq![top]);
        assert(seq![top] + reversed(before) =~= decimal_digits(m as int) + reversed(before));
        assert(decimal_digits(n as int) == reversed(low_first@));
        lemma_reversed_index(low_first@);
    }
    let len = low_first.len();
    let mut out: Vec<u8> = Vec::new();
    let mut j: usize = 0;
    while j < len
        invariant
            j <= len,
            len == low_first@.len(),
            decimal_digits(n as int) == reversed(low_first@),
            out@.len() == j,
            forall|k: int| 0 <= k < j ==> #[trigger] out@[k] == low_first@[len - 1 - k],
        decreases len - j,
    {
        out.push(low_first[len - 1 - j]);
        j = j + 1;
    }
    proof {
        lemma_reversed_index(low_first@);
        assert(out@ =~= reversed(low_first@));
    }
    out
}

/// The artifact file's name for one accepted submission: the first eight hex
/// characters of the batch root, an underscore, the batch index in decimal,
/// and the `.json` ending, as ASCII codes.
pub open spec fn batch_file_name(root: Seq<u8>, index: int) -> Seq<u8> {
    hex_bytes(root.take(4)) + seq![0x5fu8] + decimal_digits(index) + seq![
        0x2eu8, 0x6au8, 0x73u8, 0x6fu8, 0x6eu8,
    ]
}

/// Names the artifact file a submission's inclusion data is persisted under.
pub fn batch_inclusion_data_file_name(batch_merkle_root: &[u8; 32], index_in_batch: usize) -> (r:
    Vec<u8>)
    ensures
        r@ == batch_file_name(batch_merkle_root@, index_in_batch as int),
{
    let mut prefix: Vec<u8> = Vec::new();
    prefix.push(batch_merkle_root[0]);
    prefix.push(batch_merkle_root[1]);
    prefix.push(batch_merkle_root[2]);
    prefix.push(batch_merkle_root[3]);
    proof {
        assert(prefix@ =~= batch_merkle_root@.take(4));
    }
    let mut out = encode_hex(&prefix);
    out.push(0x5f);
    let mut decimal = encode_decimal(index_in_batch);
    out.append(&mut decimal);
    out.push(0x2e);
    out.push(0x6a);
    out.push(0x73);
    out.push(0x6f);
    out.push(0x6e);
    proof {
        assert(out@ =~= batch_file_name(batch_merkle_root@, index_in_batch as int));
    }
    out
}

/// The auxiliary commitment command's computation: the hash of a
/// verification key's (or any input's) bytes.
pub fn get_verification_key_commitment(content: &Vec<u8>) -> (r: [u8; 32])
    ensures
        r@ == keccak256(content@),
{
    keccak256_bytes(content.as_slice())
}

} // verus!
