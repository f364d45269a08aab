//! The Merkle batch tree: an ordered sequence of commitments is hashed into
//! leaves and aggregated bottom-up into one 32-byte root, with a sibling-path
//! inclusion proof per leaf. A level with an odd number of nodes (above one)
//! is padded by duplicating its last node, on the build side and on the
//! verification side alike.
use crate::hash::{keccak256, keccak256_bytes};
use crate::types::VerificationDataCommitment;
use vstd::prelude::*;

verus! {

broadcast use vstd::array::group_array_axioms;

/// The digest a commitment contributes as a leaf: the hash of its four
/// fields concatenated in order.
pub open spec fn leaf_digest(c: VerificationDataCommitment) -> Seq<u8> {
    keccak256(
        c.proof_commitment@ + c.pub_input_commitment@ + c.proving_system_aux_data_commitment@
            + c.proof_generator_addr@,
    )
}

/// The digest of an inner node: the hash of its two children concatenated.
pub open spec fn parent_digest(left: Seq<u8>, right: Seq<u8>) -> Seq<u8> {
    keccak256(left + right)
}

/// The node digests of a sequence of tree nodes.
pub open spec fn digests(nodes: Seq<[u8; 32]>) -> Seq<Seq<u8>> {
    Seq::new(nodes.len(), |i: int| nodes[i]@)
}

/// The leaf digests of a sequence of commitments.
pub open spec fn leaf_digests(cs: Seq<VerificationDataCommitment>) -> Seq<Seq<u8>> {
    Seq::new(cs.len(), |i: int| leaf_digest(cs[i]))
}

/// A level padded to even length by duplicating its last node. A level of
/// one node is the root and is not padded.
pub open spec fn padded_level(level: Seq<Seq<u8>>) -> Seq<Seq<u8>> {
    if level.len() > 1 && level.len() % 2 == 1 {
        level.push(level.last())
    } else {
        level
    }
}

/// The level above: each consecutive pair of the padded level hashed into
/// one parent.
pub open spec fn next_level(level: Seq<Seq<u8>>) -> Seq<Seq<u8>>
    recommends
        level.len() >= 2,
{
    let p = padded_level(level);
    Seq::new(p.len() / 2, |i: int| parent_digest(p[2 * i], p[2 * i + 1]))
}

/// The root a level reduces to: the single node once only one is left.
pub open spec fn root_of_level(level: Seq<Seq<u8>>) -> Seq<u8>
    recommends
        level.len() >= 1,
    decreases level.len(),
    when level.len() >= 1
{
    if level.len() == 1 {
        level[0]
    } else {
        root_of_level(next_level(level))
    }
}

/// The position of a node's sibling within its padded level.
pub open spec fn sibling_index(index: int) -> int {
    if index % 2 == 0 {
        index + 1
    } else {
        index - 1
    }
}

/// The sibling path from leaf `index` up to the root, one digest per level
/// below the root.
pub open spec fn merkle_path(level: Seq<Seq<u8>>, index: int) -> Seq<Seq<u8>>
    recommends
        level.len() >= 1,
        0 <= index < level.len(),
    decreases level.len(),
    when level.len() >= 1 && 0 <= index < level.len()
{
    if level.len() == 1 {
        Seq::empty()
    } else {
        seq![padded_level(level)[sibling_index(index)]] + merkle_path(
            next_level(level),
            index / 2,
        )
    }
}

/// The digest recomputed from a starting node by hashing each sibling of the
/// path in, on the side the index's bit pattern selects at each level.
pub open spec fn climb(node: Seq<u8>, index: int, path: Seq<Seq<u8>>) -> Seq<u8>
    decreases path.len(),
{
    if path.len() == 0 {
        node
    } else {
        let up = if index % 2 == 0 {
            parent_digest(node, path[0])
        } else {
            parent_digest(path[0], node)
        };
        climb(up, index / 2, path.drop_first())
    }
}

/// Whether a sibling path proves that `leaf` sits at `index` under `root`.
pub open spec fn merkle_verifies(
    root: Seq<u8>,
    leaf: Seq<u8>,
    index: int,
    path: Seq<Seq<u8>>,
) -> bool {
    climb(leaf, index, path) == root
}

/// How one level relates to the next: lengths, the sibling's place within
/// the padded level, and the parent each pair hashes into.
proof fn lemma_level_step(level: Seq<Seq<u8>>, index: int)
    requires
        level.len() >= 2,
        0 <= index < level.len(),
    ensures
        next_level(level).len() == padded_level(level).len() / 2,
        1 <= next_level(level).len() < level.len(),
        0 <= index / 2 < next_level(level).len(),
        padded_level(level)[index] == level[index],
        0 <= sibling_index(index) < padded_level(level).len(),
        next_level(level)[index / 2] == (if index % 2 == 0 {
            parent_digest(padded_level(level)[index], padded_level(level)[sibling_index(index)])
        } else {
            parent_digest(padded_level(level)[sibling_index(index)], padded_level(level)[index])
        }),
{
    let p = padded_level(level);
    assert(p.len() % 2 == 0);
    if index % 2 == 0 {
        assert(index == 2 * (index / 2));
        assert(next_level(level)[index / 2] == parent_digest(p[2 * (index / 2)], p[2 * (index / 2)
            + 1]));
    } else {
        assert(index == 2 * (index / 2) + 1);
        assert(next_level(level)[index / 2] == parent_digest(p[2 * (index / 2)], p[2 * (index / 2)
            + 1]));
    }
}

/// Inclusion-proof round trip: for a level of any size and any valid index,
/// climbing the generated sibling path from that leaf recomputes exactly the
/// level's root.
pub proof fn lemma_inclusion_proof_round_trip(level: Seq<Seq<u8>>, index: int)
    requires
        level.len() >= 1,
        0 <= index < level.len(),
    ensures
        merkle_verifies(root_of_level(level), level[index], index, merkle_path(level, index)),
    decreases level.len(),
{
    if level.len() == 1 {
        assert(merkle_path(level, index) =~= Seq::<Seq<u8>>::empty());
    } else {
        let p = padded_level(level);
        let nxt = next_level(level);
        let sib = sibling_index(index);
        lemma_level_step(level, index);
        lemma_inclusion_proof_round_trip(nxt, index / 2);
        let rest = merkle_path(nxt, index / 2);
        let path = merkle_path(level, index);
        assert(path == seq![p[sib]] + rest);
        assert(path[0] == p[sib]);
        assert(path.drop_first() =~= rest);
        assert(climb(level[index], index, path) == climb(nxt[index / 2], index / 2, rest));
    }
}

/// Two-leaf exactness: the root of a two-node level is precisely the parent
/// hash of those two nodes.
pub proof fn lemma_two_leaf_root(l0: Seq<u8>, l1: Seq<u8>)
    ensures
        root_of_level(seq![l0, l1]) == parent_digest(l0, l1),
{
    let level = seq![l0, l1];
    let nxt = next_level(level);
    assert(padded_level(level) == level);
    assert(nxt.len() == 1);
    assert(nxt[0] == parent_digest(level[0int], level[1int]));
    assert(root_of_level(level) == root_of_level(nxt));
    assert(root_of_level(nxt) == nxt[0]);
}

/// Inclusion-proof round trip stated over a batch of commitments.
pub proof fn lemma_batch_inclusion_round_trip(
    commitments: Seq<VerificationDataCommitment>,
    index: int,
)
    requires
        commitments.len() >= 1,
        0 <= index < commitments.len(),
    ensures
        merkle_verifies(
            root_of_level(leaf_digests(commitments)),
            leaf_digest(commitments[index]),
            index,
            merkle_path(leaf_digests(commitments), index),
        ),
{
    lemma_inclusion_proof_round_trip(leaf_digests(commitments), index);
}

/// The backend of the batch tree: how a commitment becomes a leaf node and
/// how two nodes become their parent.
#[derive(Clone, Default)]
pub struct VerificationCommitmentBatch;

impl VerificationCommitmentBatch {
    /// Hashes a commitment into its leaf node: the four fields concatenated
    /// in order, then hashed once.
    pub fn hash_data(leaf: &VerificationDataCommitment) -> (r: [u8; 32])
        ensures
            r@ == leaf_digest(*leaf),
    {
        let mut bytes: Vec<u8> = Vec::new();
        bytes.extend_from_slice(leaf.proof_commitment.as_slice());
        bytes.extend_from_slice(leaf.pub_input_commitment.as_slice());
        bytes.extend_from_slice(leaf.proving_system_aux_data_commitment.as_slice());
        bytes.extend_from_slice(leaf.proof_generator_addr.as_slice());
        proof {
            assert(bytes@ =~= leaf.proof_commitment@ + leaf.pub_input_commitment@
                + leaf.proving_system_aux_data_commitment@ + leaf.proof_generator_addr@);
        }
        keccak256_bytes(bytes.as_slice())
    }

    /// Hashes two child nodes into their parent: left then right, one hash.
    pub fn hash_new_parent(child_1: &[u8; 32], child_2: &[u8; 32]) -> (r: [u8; 32])
        ensures
            r@ == parent_digest(child_1@, child_2@),
    {
        let mut bytes: Vec<u8> = Vec::new();
        bytes.extend_from_slice(child_1.as_slice());
        bytes.extend_from_slice(child_2.as_slice());
        proof {
            assert(bytes@ =~= child_1@ + child_2@);
        }
        keccak256_bytes(bytes.as_slice())
    }
}

/// An inclusion proof: the sibling digests from the leaf's level up to the
/// root, in path order.
#[derive(Clone, Debug)]
pub struct MerkleProof {
    pub merkle_path: Vec<[u8; 32]>,
}

/// The array-backed batch tree: every level of nodes, leaves first, down to
/// the single root node.
#[derive(Clone, Debug)]
pub struct MerkleTree {
    pub levels: Vec<Vec<[u8; 32]>>,
    pub root: [u8; 32],
}

/// Copies a vector of nodes.
pub(crate) fn copy_nodes(nodes: &Vec<[u8; 32]>) -> (r: Vec<[u8; 32]>)
    ensures
        r@ == nodes@,
{
    let mut r: Vec<[u8; 32]> = Vec::new();
    let mut i: usize = 0;
    while i < nodes.len()
        invariant
            i <= nodes@.len(),
            r@ == nodes@.subrange(0, i as int),
        decreases nodes@.len() - i,
    {
        r.push(nodes[i]);
        proof {
            assert(nodes@.subrange(0, i as int).push(nodes@[i as int]) =~= nodes@.subrange(
                0,
                i as int + 1,
            ));
        }
        i += 1;
    }
    proof {
        assert(nodes@.subrange(0, nodes@.len() as int) =~= nodes@);
    }
    r
}

/// Hashes each consecutive pair of a level into the level above, duplicating
/// the last node of an odd level.
fn parent_level(nodes: &Vec<[u8; 32]>) -> (r: Vec<[u8; 32]>)
    requires
        nodes@.len() >= 2,
    ensures
        digests(r@) == next_level(digests(nodes@)),
        1 <= r@.len() < nodes@.len(),
{
    let ghost p = padded_level(digests(nodes@));
    let n = nodes.len();
    let count = n / 2 + n % 2;
    proof {
        assert(p.len() == if n % 2 == 1 {
            n + 1
        } else {
            n as int
        });
        assert(count == p.len() / 2);
    }
    let mut r: Vec<[u8; 32]> = Vec::new();
    let mut i: usize = 0;
    while i < count
        invariant
            nodes@.len() == n,
            n >= 2,
            p == padded_level(digests(nodes@)),
            count == p.len() / 2,
            2 * count <= n + 1,
            i <= count,
            r@.len() == i,
            forall|k: int|
                0 <= k < r@.len() ==> (#[trigger] r@[k])@ == parent_digest(p[2 * k], p[2 * k + 1]),
        decreases count - i,
    {
        let left = nodes[2 * i];
        let right = if 2 * i + 1 < n {
            nodes[2 * i + 1]
        } else {
            nodes[n - 1]
        };
        proof {
            assert(p[2 * (i as int)] == digests(nodes@)[2 * (i as int)]);
            if 2 * i + 1 < n {
                assert(p[2 * (i as int) + 1] == digests(nodes@)[2 * (i as int) + 1]);
            } else {
                assert(n % 2 == 1);
                assert(p[2 * (i as int) + 1] == digests(nodes@).last());
            }
        }
        r.push(VerificationCommitmentBatch::hash_new_parent(&left, &right));
        i += 1;
    }
    proof {
        assert(digests(r@) =~= next_level(digests(nodes@)));
    }
    r
}

impl MerkleTree {
    /// The leaf digests the tree was built over.
    pub open spec fn leaves(self) -> Seq<Seq<u8>> {
        digests(self.levels@[0]@)
    }

    /// Structural soundness: at least one leaf, each stored level is the
    /// level above its predecessor, the last level is the single root node,
    /// and the root field carries the leaves' root.
    pub open spec fn well_formed(self) -> bool {
        &&& self.levels@.len() >= 1
        &&& self.levels@[0]@.len() >= 1
        &&& forall|i: int|
            0 <= i < self.levels@.len() - 1 ==> digests(#[trigger] self.levels@[i + 1]@)
                == next_level(digests(self.levels@[i]@))
        &&& forall|i: int|
            0 <= i < self.levels@.len() - 1 ==> (#[trigger] self.levels@[i]@).len() >= 2
        &&& self.levels@[self.levels@.len() - 1]@.len() == 1
        &&& self.root@ == root_of_level(self.leaves())
    }

    /// How many leaves the tree holds.
    pub open spec fn leaf_count(self) -> nat {
        self.levels@[0]@.len()
    }

    /// Builds the batch tree bottom-up over the commitments' leaf hashes, in
    /// their given order. An empty batch has no tree.
    pub fn build(leaves: &Vec<VerificationDataCommitment>) -> (r: Option<MerkleTree>)
        ensures
            r is Some <==> leaves@.len() >= 1,
            r matches Some(t) ==> {
                &&& t.well_formed()
                &&& t.leaves() == leaf_digests(leaves@)
                &&& t.root@ == root_of_level(leaf_digests(leaves@))
            },
    {
        if leaves.len() == 0 {
            return None;
        }
        let mut level0: Vec<[u8; 32]> = Vec::new();
        let mut i: usize = 0;
        while i < leaves.len()
            invariant
                i <= leaves@.len(),
                level0@.len() == i,
                forall|k: int| 0 <= k < i ==> (#[trigger] level0@[k])@ == leaf_digest(leaves@[k]),
            decreases leaves@.len() - i,
        {
            level0.push(VerificationCommitmentBatch::hash_data(&leaves[i]));
            i += 1;
        }
        proof {
            assert(digests(level0@) =~= leaf_digests(leaves@));
        }
        let mut levels: Vec<Vec<[u8; 32]>> = Vec::new();
        let mut current: Vec<[u8; 32]> = level0;
        levels.push(copy_nodes(&current));
        while current.len() > 1
            invariant
                levels@.len() >= 1,
                current@.len() >= 1,
                digests(levels@[levels@.len() - 1]@) == digests(current@),
                digests(levels@[0]@) == leaf_digests(leaves@),
                forall|k: int|
                    0 <= k < levels@.len() - 1 ==> digests(#[trigger] levels@[k + 1]@)
                        == next_level(digests(levels@[k]@)),
                forall|k: int|
                    0 <= k < levels@.len() - 1 ==> (#[trigger] levels@[k]@).len() >= 2,
                root_of_level(digests(current@)) == root_of_level(leaf_digests(leaves@)),
            decreases current@.len(),
        {
            let next = parent_level(&current);
            proof {
                assert(root_of_level(digests(current@)) == root_of_level(
                    next_level(digests(current@)),
                ));
            }
            levels.push(copy_nodes(&next));
            current = next;
        }
        let root = current[0];
        proof {
            assert(digests(current@).len() == 1);
            assert(root_of_level(digests(current@)) == digests(current@)[0]);
        }
        Some(MerkleTree { levels, root })
    }

    /// The sibling path for the leaf at `index`, or nothing when the index
    /// is out of range.
    pub fn get_proof_by_pos(&self, index: usize) -> (r: Option<MerkleProof>)
        requires
            self.well_formed(),
        ensures
            r is Some <==> (index as int) < self.leaves().len(),
            r matches Some(p) ==> digests(p.merkle_path@) == merkle_path(
                self.leaves(),
                index as int,
            ),
    {
        if index >= self.levels[0].len() {
            return None;
        }
        let mut path: Vec<[u8; 32]> = Vec::new();
        let mut idx: usize = index;
        let mut k: usize = 0;
        while k < self.levels.len() - 1
            invariant
                self.well_formed(),
                k < self.levels@.len(),
                (idx as int) < self.levels@[k as int]@.len(),
                merkle_path(self.leaves(), index as int) == digests(path@) + merkle_path(
                    digests(self.levels@[k as int]@),
                    idx as int,
                ),
            decreases self.levels@.len() - k,
        {
            let ghost lvl = digests(self.levels@[k as int]@);
            proof {
                assert(lvl.len() >= 2);
                lemma_level_step(lvl, idx as int);
            }
            let level: &Vec<[u8; 32]> = &self.levels[k];
            let n = level.len();
            let sib: usize = if idx % 2 == 0 {
                if idx + 1 < n {
                    idx + 1
                } else {
                    n - 1
                }
            } else {
                idx - 1
            };
            proof {
                if idx % 2 == 0 && idx + 1 >= n {
                    assert(n % 2 == 1);
                    assert(padded_level(lvl)[sibling_index(idx as int)] == lvl.last());
                } else {
                    assert(padded_level(lvl)[sibling_index(idx as int)] == lvl[sib as int]);
                }
                assert(merkle_path(lvl, idx as int) == seq![
                    padded_level(lvl)[sibling_index(idx as int)],
                ] + merkle_path(next_level(lvl), idx as int / 2));
            }
            path.push(level[sib]);
            proof {
                assert(digests(path@) =~= digests(path@.subrange(0, path@.len() - 1)) + seq![
                    level@[sib as int]@,
                ]);
                assert(digests(levels_at(self, k as int + 1)) == next_level(lvl)) by {
                    assert(digests(self.levels@[k as int + 1]@) == next_level(
                        digests(self.levels@[k as int]@),
                    ));
                }
                assert((digests(path@.subrange(0, path@.len() - 1)) + seq![level@[sib as int]@])
                    + merkle_path(next_level(lvl), idx as int / 2) =~= digests(
                    path@.subrange(0, path@.len() - 1),
                ) + (seq![level@[sib as int]@] + merkle_path(next_level(lvl), idx as int / 2)));
            }
            idx = idx / 2;
            k += 1;
        }
        proof {
            assert(self.levels@[k as int]@.len() == 1);
            assert(merkle_path(digests(self.levels@[k as int]@), idx as int)
                =~= Seq::<Seq<u8>>::empty());
            assert(digests(path@) + Seq::<Seq<u8>>::empty() =~= digests(path@));
        }
        Some(MerkleProof { merkle_path: path })
    }
}

/// The stored nodes of one level, as a sequence.
spec fn levels_at(t: &MerkleTree, i: int) -> Seq<[u8; 32]> {
    t.levels@[i]@
}

/// Compares two 32-byte digests.
fn eq_32(a: &[u8; 32], b: &[u8; 32]) -> (r: bool)
    ensures
        r == (a@ == b@),
{
    let mut i: usize = 0;
    while i < 32
        invariant
            i <= 32,
            forall|j: int| 0 <= j < i ==> a@[j] == b@[j],
        decreases 32 - i,
    {
        if a[i] != b[i] {
            return false;
        }
        i += 1;
    }
    proof {
        assert(a@ =~= b@);
    }
    true
}

impl MerkleProof {
    /// Recomputes parent hashes from `leaf` up along the path, choosing the
    /// left/right order at each level from the index's bit pattern, and
    /// accepts exactly when the recomputed root equals `root`.
    pub fn verify(
        &self,
        root: &[u8; 32],
        index: usize,
        leaf: &VerificationDataCommitment,
    ) -> (r: bool)
        ensures
            r == merkle_verifies(
                root@,
                leaf_digest(*leaf),
                index as int,
                digests(self.merkle_path@),
            ),
    {
        let mut node = VerificationCommitmentBatch::hash_data(leaf);
        let mut idx: usize = index;
        let mut k: usize = 0;
        proof {
            assert(digests(self.merkle_path@).skip(0) =~= digests(self.merkle_path@));
        }
        while k < self.merkle_path.len()
            invariant
                k <= self.merkle_path@.len(),
                climb(leaf_digest(*leaf), index as int, digests(self.merkle_path@)) == climb(
                    node@,
                    idx as int,
                    digests(self.merkle_path@).skip(k as int),
                ),
            decreases self.merkle_path@.len() - k,
        {
            let ghost remaining = digests(self.merkle_path@).skip(k as int);
            proof {
                assert(remaining[0] == self.merkle_path@[k as int]@);
                assert(remaining.drop_first() =~= digests(self.merkle_path@).skip(k as int + 1));
            }
            let sibling = self.merkle_path[k];
            node = if idx % 2 == 0 {
                VerificationCommitmentBatch::hash_new_parent(&node, &sibling)
            } else {
                VerificationCommitmentBatch::hash_new_parent(&sibling, &node)
            };
            idx = idx / 2;
            k += 1;
        }
        proof {
            assert(digests(self.merkle_path@).skip(self.merkle_path@.len() as int)
                =~= Seq::<Seq<u8>>::empty());
        }
        eq_32(&node, root)
    }
}

/// What the batching service returns to a client once its submission has
/// been included: the batch root, the leaf's inclusion proof, and the leaf's
/// position in the batch.
#[derive(Clone, Debug)]
pub struct BatchInclusionData {
    pub batch_merkle_root: [u8; 32],
    pub batch_inclusion_proof: MerkleProof,
    pub index_in_batch: usize,
}

impl BatchInclusionData {
    /// Packs the inclusion answer for one leaf of a built batch tree.
    pub fn new(
        verification_data_batch_index: usize,
        batch_merkle_tree: &MerkleTree,
    ) -> (r: BatchInclusionData)
        requires
            batch_merkle_tree.well_formed(),
            (verification_data_batch_index as int) < batch_merkle_tree.leaves().len(),
        ensures
            r.batch_merkle_root@ == root_of_level(batch_merkle_tree.leaves()),
            digests(r.batch_inclusion_proof.merkle_path@) == merkle_path(
                batch_merkle_tree.leaves(),
                verification_data_batch_index as int,
            ),
            r.index_in_batch == verification_data_batch_index,
    {
        let batch_inclusion_proof = match batch_merkle_tree.get_proof_by_pos(
            verification_data_batch_index,
        ) {
            Some(p) => p,
            None => vstd::pervasive::unreached(),
        };
        BatchInclusionData {
            batch_merkle_root: batch_merkle_tree.root,
            batch_inclusion_proof,
            index_in_batch: verification_data_batch_index,
        }
    }
}

} // verus!
