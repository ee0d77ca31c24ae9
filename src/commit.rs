//! The commitment operations: building a tree from labelled values, proving
//! one leaf, and checking such a proof.
use vstd::prelude::*;
use crate::value::Value;
use crate::error::MerkleError;
use crate::leaf::{LeafInput, LeafDataBlock, salt_of, block_bytes};
use crate::tree::{digests, root_of, proof_path, verify_outcome, merkle_root, merkle_proof, check_proof};

verus! {

/// A committed tree: the salted blocks, their digests in order, the entropy
/// that keyed the salts, and the root.
#[derive(Debug)]
pub struct TreeEntry {
    /// The leaf data blocks, in the order given at creation.
    pub data_blocks: Vec<LeafDataBlock>,
    /// The digest of each data block.
    pub leaves: Vec<[u8; 32]>,
    /// The secret from which every salt is derived.
    pub entropy: Vec<u8>,
    /// The root over `leaves`.
    pub root: [u8; 32],
    /// Data kept beside the tree that plays no part in the commitment.
    pub metadata: Vec<(String, Value)>,
}

/// Read access to the metadata that every stored record carries.
pub trait CommonFields {
    /// Data kept beside the record that plays no part in its integrity.
    fn metadata(&self) -> &Vec<(String, Value)>;
}

impl CommonFields for TreeEntry {
    fn metadata(&self) -> &Vec<(String, Value)> {
        &self.metadata
    }
}

/// The data blocks that a tree was created from, as a record of their own.
#[derive(Debug)]
pub struct DataBlocksEntry {
    /// The leaf data blocks, in leaf order.
    pub blocks: Vec<LeafDataBlock>,
    /// Data kept beside the blocks.
    pub metadata: Vec<(String, Value)>,
}

impl CommonFields for DataBlocksEntry {
    fn metadata(&self) -> &Vec<(String, Value)> {
        &self.metadata
    }
}

/// A named claim that an author makes about a tree, by its root.
#[derive(Debug)]
pub struct ClaimEntry {
    /// The name of the claim.
    pub name: String,
    /// The public key of the author making the claim.
    pub author: Vec<u8>,
    /// The root of the tree that the claim is about.
    pub root: [u8; 32],
    /// Data kept beside the claim.
    pub metadata: Vec<(String, Value)>,
}

impl CommonFields for ClaimEntry {
    fn metadata(&self) -> &Vec<(String, Value)> {
        &self.metadata
    }
}

impl TreeEntry {
    /// Moves the data blocks out into a record of their own.
    pub fn into_data_blocks(self) -> (r: DataBlocksEntry)
        ensures
            r.blocks == self.data_blocks,
            r.metadata@.len() == 0,
    {
        DataBlocksEntry { blocks: self.data_blocks, metadata: Vec::new() }
    }
}

/// The request to create a tree.
#[derive(Debug)]
pub struct CreateTreeInput {
    /// The labelled values, in leaf order.
    pub leaves: Vec<LeafInput>,
    /// The entropy for the salts; fresh random bytes when absent.
    pub entropy: Option<Vec<u8>>,
}

/// Everything needed to check one revealed leaf.
#[derive(Debug)]
pub struct LeafProofPayload {
    /// The sibling digests, bottom level first.
    pub proof: Vec<[u8; 32]>,
    /// The leaf's position.
    pub index: u64,
    /// The revealed data block.
    pub target: LeafDataBlock,
    /// The digest of `target`.
    pub leaf: [u8; 32],
    /// The tree's root.
    pub root: [u8; 32],
    /// The number of leaves in the tree.
    pub total_leaves: u64,
}

/// The request to check one leaf proof.
#[derive(Debug)]
pub struct VerifyLeafProofInput {
    /// The sibling digests, bottom level first.
    pub proof: Vec<[u8; 32]>,
    /// The leaf's position.
    pub index: u64,
    /// The digest of the revealed leaf.
    pub leaf: [u8; 32],
    /// The root to check against.
    pub root: [u8; 32],
    /// The number of leaves in the tree.
    pub total_leaves: u64,
}

/// The digest of each block, in order.
pub open spec fn leaf_digests(blocks: Seq<LeafDataBlock>) -> Seq<Seq<u8>> {
    Seq::new(blocks.len(), |j: int| blocks[j].digest())
}

/// Whether every block has a canonical encoding.
pub open spec fn blocks_encodable(blocks: Seq<LeafDataBlock>) -> bool {
    forall|j: int| 0 <= j < blocks.len() ==> (#[trigger] blocks[j]).encoding() is Some
}

/// Whether every input, salted as its position under `e`, has a canonical encoding.
pub open spec fn inputs_encodable(inputs: Seq<LeafInput>, e: Seq<u8>) -> bool {
    forall|j: int|
        0 <= j < inputs.len() ==> block_bytes(
            (#[trigger] inputs[j]).label@,
            inputs[j].value,
            salt_of(e, j as nat),
        ) is Some
}

/// Whether `blocks` are `inputs` salted by position under `e`.
pub open spec fn salted_from(inputs: Seq<LeafInput>, e: Seq<u8>, blocks: Seq<LeafDataBlock>) -> bool {
    &&& blocks.len() == inputs.len()
    &&& forall|j: int|
        0 <= j < blocks.len() ==> {
            &&& (#[trigger] blocks[j]).label == inputs[j].label
            &&& blocks[j].value == inputs[j].value
            &&& blocks[j].salt@ == salt_of(e, j as nat)
        }
}

/// Whether `t` is the tree committed to by `inputs` under entropy `e`.
pub open spec fn built_from(inputs: Seq<LeafInput>, e: Seq<u8>, t: TreeEntry) -> bool {
    &&& salted_from(inputs, e, t.data_blocks@)
    &&& blocks_encodable(t.data_blocks@)
    &&& digests(t.leaves@) == leaf_digests(t.data_blocks@)
    &&& t.entropy@ == e
    &&& t.root@ == root_of(digests(t.leaves@))
    &&& t.metadata@.len() == 0
}

/// What creating a tree from `inputs` under entropy `e` yields.
pub open spec fn creates(inputs: Seq<LeafInput>, e: Seq<u8>, r: Result<TreeEntry, MerkleError>) -> bool {
    if inputs.len() == 0 {
        r == Err::<TreeEntry, MerkleError>(MerkleError::EmptyTree)
    } else if e.len() == 0 {
        r == Err::<TreeEntry, MerkleError>(MerkleError::KeyError)
    } else if !inputs_encodable(inputs, e) {
        r == Err::<TreeEntry, MerkleError>(MerkleError::SerializationError)
    } else {
        r is Ok && built_from(inputs, e, r->Ok_0)
    }
}

/// Whether `k` is the first position whose block carries `label`.
pub open spec fn first_with_label(blocks: Seq<LeafDataBlock>, label: Seq<char>, k: int) -> bool {
    &&& 0 <= k < blocks.len()
    &&& blocks[k].label@ == label
    &&& forall|m: int| 0 <= m < k ==> (#[trigger] blocks[m]).label@ != label
}

/// Whether `p` proves the first block of `blocks` labelled `label` under `root`.
pub open spec fn proves(blocks: Seq<LeafDataBlock>, root: [u8; 32], label: Seq<char>, p: LeafProofPayload) -> bool {
    &&& first_with_label(blocks, label, p.index as int)
    &&& p.target == blocks[p.index as int]
    &&& p.leaf@ == blocks[p.index as int].digest()
    &&& digests(p.proof@) == proof_path(leaf_digests(blocks), p.index as int)
    &&& p.root == root
    &&& p.total_leaves == blocks.len()
}

/// Relies on rand::random::<[u8; 32]>, which draws from the thread-local
/// cryptographically secure generator; only the length is known.
#[verifier::external_body]
fn random_entropy() -> (r: Vec<u8>)
    ensures
        r@.len() == 32,
{
    rand::random::<[u8; 32]>().to_vec()
}

/// Salts one input as leaf `index` and hashes the resulting block.
fn salt_and_hash(input: LeafInput, entropy: &Vec<u8>, index: u64) -> (r: Result<(LeafDataBlock, [u8; 32]), MerkleError>)
    requires
        entropy@.len() > 0,
    ensures
        r is Err <==> block_bytes(input.label@, input.value, salt_of(entropy@, index as nat)) is None,
        r is Err ==> r->Err_0 == MerkleError::SerializationError,
        r is Ok ==> {
            let (b, d) = r->Ok_0;
            &&& b.label == input.label
            &&& b.value == input.value
            &&& b.salt@ == salt_of(entropy@, index as nat)
            &&& b.encoding() is Some
            &&& d@ == b.digest()
        },
{
    let block = match input.into_data_block(entropy, index) {
        Ok(b) => b,
        Err(e) => {
            return Err(e);
        },
    };
    match block.hash() {
        Ok(d) => Ok((block, d)),
        Err(e) => Err(e),
    }
}

/// The first position of `blocks` whose label is `label`.
fn find_label(blocks: &Vec<LeafDataBlock>, label: &String) -> (r: Option<usize>)
    ensures
        r is Some ==> first_with_label(blocks@, label@, r->Some_0 as int),
        r is None ==> forall|k: int| 0 <= k < blocks@.len() ==> (#[trigger] blocks@[k]).label@ != label@,
{
    let mut k: usize = 0;
    while k < blocks.len()
        invariant
            k <= blocks@.len(),
            forall|m: int| 0 <= m < k ==> (#[trigger] blocks@[m]).label@ != label@,
        decreases blocks@.len() - k,
    {
        if blocks[k].label == *label {
            return Some(k);
        }
        k = k + 1;
    }
    None
}

/// Salts each input by its position under `entropy`, hashes the blocks, and
/// builds the tree over the digests in input order.
pub fn create_tree_with_entropy(leaves: Vec<LeafInput>, entropy: Vec<u8>) -> (r: Result<TreeEntry, MerkleError>)
    ensures
        creates(leaves@, entropy@, r),
{
    if leaves.len() == 0 {
        return Err(MerkleError::EmptyTree);
    }
    if entropy.len() == 0 {
        return Err(MerkleError::KeyError);
    }
    let ghost orig = leaves@;
    let n = leaves.len();
    let mut inputs = leaves;
    let mut blocks: Vec<LeafDataBlock> = Vec::new();
    let mut digs: Vec<[u8; 32]> = Vec::new();
    let mut i: usize = 0;
    assert(inputs@ =~= orig.subrange(0, n as int));
    while i < n
        invariant
            n == orig.len(),
            n > 0,
            orig == leaves@,
            i <= n,
            entropy@.len() > 0,
            inputs@ == orig.subrange(i as int, n as int),
            blocks@.len() == i,
            digs@.len() == i,
            forall|j: int|
                0 <= j < i ==> {
                    &&& (#[trigger] blocks@[j]).label == orig[j].label
                    &&& blocks@[j].value == orig[j].value
                    &&& blocks@[j].salt@ == salt_of(entropy@, j as nat)
                    &&& blocks@[j].encoding() is Some
                    &&& digs@[j]@ == blocks@[j].digest()
                },
        decreases n - i,
    {
        let input = inputs.remove(0);
        assert(inputs@ =~= orig.subrange(i + 1, n as int));
        let (block, d) = match salt_and_hash(input, &entropy, i as u64) {
            Ok(pair) => pair,
            Err(e) => {
                assert(!inputs_encodable(orig, entropy@)) by {
                    assert(block_bytes(orig[i as int].label@, orig[i as int].value, salt_of(entropy@, i as nat)) is None);
                }
                return Err(e);
            },
        };
        blocks.push(block);
        digs.push(d);
        i = i + 1;
    }
    assert(inputs_encodable(orig, entropy@)) by {
        assert forall|j: int| 0 <= j < orig.len() implies block_bytes(
            (#[trigger] orig[j]).label@,
            orig[j].value,
            salt_of(entropy@, j as nat),
        ) is Some by {
            assert(blocks@[j].encoding() is Some);
        }
    }
    let root = merkle_root(&digs);
    let t = TreeEntry { data_blocks: blocks, leaves: digs, entropy, root, metadata: Vec::new() };
    assert(digests(t.leaves@) =~= leaf_digests(t.data_blocks@));
    Ok(t)
}

/// Creates a tree, drawing 32 random bytes of entropy when none is given.
pub fn create_tree(input: CreateTreeInput) -> (r: Result<TreeEntry, MerkleError>)
    ensures
        match input.entropy {
            Some(e) => creates(input.leaves@, e@, r),
            None => exists|e: Seq<u8>| e.len() == 32 && creates(input.leaves@, e, r),
        },
{
    let entropy = match input.entropy {
        Some(e) => e,
        None => random_entropy(),
    };
    create_tree_with_entropy(input.leaves, entropy)
}

/// The SHA-256 digest of a data block's canonical encoding.
pub fn hash_data_block(input: LeafDataBlock) -> (r: Result<[u8; 32], MerkleError>)
    ensures
        r is Ok <==> input.encoding() is Some,
        r is Ok ==> r->Ok_0@ == input.digest(),
        r is Err ==> r->Err_0 == MerkleError::SerializationError,
{
    input.hash()
}

/// The proof for the first data block of `tree` that carries `label`.
pub fn get_leaf_proof(tree: TreeEntry, label: String) -> (r: Result<LeafProofPayload, MerkleError>)
    ensures
        !blocks_encodable(tree.data_blocks@) ==> r == Err::<LeafProofPayload, MerkleError>(
            MerkleError::SerializationError,
        ),
        blocks_encodable(tree.data_blocks@) && (forall|k: int|
            0 <= k < tree.data_blocks@.len() ==> (#[trigger] tree.data_blocks@[k]).label@ != label@)
            ==> r == Err::<LeafProofPayload, MerkleError>(MerkleError::LabelNotFound),
        r is Ok ==> proves(tree.data_blocks@, tree.root, label@, r->Ok_0),
        blocks_encodable(tree.data_blocks@) && (exists|k: int|
            0 <= k < tree.data_blocks@.len() && (#[trigger] tree.data_blocks@[k]).label@ == label@)
            ==> r is Ok,
{
    let n = tree.data_blocks.len();
    let mut digs: Vec<[u8; 32]> = Vec::new();
    let mut j: usize = 0;
    while j < n
        invariant
            n == tree.data_blocks@.len(),
            j <= n,
            digs@.len() == j,
            forall|m: int|
                0 <= m < j ==> (#[trigger] tree.data_blocks@[m]).encoding() is Some
                    && digs@[m]@ == tree.data_blocks@[m].digest(),
        decreases n - j,
    {
        match tree.data_blocks[j].hash() {
            Ok(d) => digs.push(d),
            Err(e) => {
                return Err(e);
            },
        }
        j = j + 1;
    }
    assert(digests(digs@) =~= leaf_digests(tree.data_blocks@));
    let k = match find_label(&tree.data_blocks, &label) {
        Some(k) => k,
        None => {
            return Err(MerkleError::LabelNotFound);
        },
    };
    let proof = merkle_proof(&digs, k);
    let leaf = digs[k];
    let root = tree.root;
    let mut blocks = tree.data_blocks;
    let target = blocks.remove(k);
    Ok(LeafProofPayload { proof, index: k as u64, target, leaf, root, total_leaves: n as u64 })
}

/// Checks a leaf proof: an error when its length cannot lead from the leaf to
/// the root, otherwise whether the recomputed root equals the claimed one.
pub fn verify_leaf_proof(input: VerifyLeafProofInput) -> (r: Result<bool, MerkleError>)
    ensures
        r == verify_outcome(
            digests(input.proof@),
            input.index as nat,
            input.leaf@,
            input.root@,
            input.total_leaves as nat,
        ),
{
    check_proof(&input.proof, input.index, &input.leaf, &input.root, input.total_leaves)
}

/// The lowercase hexadecimal digit for `n` (below 16).
pub open spec fn hex_digit(n: nat) -> char {
    seq!['0', '1', '2', '3', '4', '5', '6', '7', '8', '9', 'a', 'b', 'c', 'd', 'e', 'f'][n as int]
}

/// Two lowercase hexadecimal digits for each byte, in order.
pub open spec fn hex_string(b: Seq<u8>) -> Seq<char>
    decreases b.len(),
{
    if b.len() == 0 {
        seq![]
    } else {
        hex_string(b.drop_last()) + seq![hex_digit(b.last() as nat / 16), hex_digit(b.last() as nat % 16)]
    }
}

/// Relies on hex::encode: two lowercase hexadecimal digits for each byte, in order.
#[verifier::external_body]
fn hex_encode(bytes: &[u8; 32]) -> (r: String)
    ensures
        r@ == hex_string(bytes@),
{
    hex::encode(bytes)
}

impl TreeEntry {
    /// The root as lowercase hexadecimal.
    pub fn root_as_hex(&self) -> (r: String)
        ensures
            r@ == hex_string(self.root@),
    {
        hex_encode(&self.root)
    }
}

} // verus!
