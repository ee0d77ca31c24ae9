//! Properties that relate the operations of this library to one another.
use vstd::prelude::*;
use crate::commit::{TreeEntry, LeafProofPayload, built_from, proves, leaf_digests};
use crate::leaf::LeafInput;
use crate::tree::{digests, root_of, proof_path, verify_outcome, climb, lemma_climb_proof_path};

verus! {

/// Whether no two inputs share a label.
pub open spec fn labels_distinct(inputs: Seq<LeafInput>) -> bool {
    forall|a: int, b: int|
        0 <= a < inputs.len() && 0 <= b < inputs.len() && a != b ==> (#[trigger] inputs[a]).label@
            != (#[trigger] inputs[b]).label@
}

/// Round trip: in a tree built from inputs with distinct labels, the proof
/// obtained for the label of input `j` stands at position `j` and checks
/// against the tree's root.
pub proof fn law_round_trip(inputs: Seq<LeafInput>, e: Seq<u8>, t: TreeEntry, j: int, p: LeafProofPayload)
    requires
        built_from(inputs, e, t),
        labels_distinct(inputs),
        0 <= j < inputs.len(),
        proves(t.data_blocks@, t.root, inputs[j].label@, p),
    ensures
        p.index == j,
        verify_outcome(digests(p.proof@), p.index as nat, p.leaf@, p.root@, p.total_leaves as nat) == Ok::<
            bool,
            crate::error::MerkleError,
        >(true),
{
    let blocks = t.data_blocks@;
    let k = p.index as int;
    assert(blocks[k].label == inputs[k].label);
    assert(blocks[j].label == inputs[j].label);
    assert(k == j);
    let ld = leaf_digests(blocks);
    lemma_climb_proof_path(ld, j);
    assert(ld[j] == p.leaf@);
}

/// Every built tree can be proved against: creating a tree succeeds on its
/// inputs, and each label of the inputs has a block.
pub proof fn law_labels_present(inputs: Seq<LeafInput>, e: Seq<u8>, t: TreeEntry, j: int)
    requires
        built_from(inputs, e, t),
        0 <= j < inputs.len(),
    ensures
        exists|k: int|
            0 <= k < t.data_blocks@.len() && (#[trigger] t.data_blocks@[k]).label@ == inputs[j].label@,
{
    assert(t.data_blocks@[j].label == inputs[j].label);
}

/// A tree of one leaf has that leaf as its root and an empty proof, and the
/// empty proof checks for it.
pub proof fn law_single_leaf(d: Seq<u8>)
    ensures
        root_of(seq![d]) == d,
        proof_path(seq![d], 0) == Seq::<Seq<u8>>::empty(),
        verify_outcome(seq![], 0, d, d, 1) == Ok::<bool, crate::error::MerkleError>(true),
{
    assert(climb(d, 0, 1, seq![]) == Some(d));
}

/// A proof that checks against one root fails against any other root with
/// the same leaf, position and leaf count.
pub proof fn law_cross_root(
    proof: Seq<Seq<u8>>,
    index: nat,
    leaf: Seq<u8>,
    r1: Seq<u8>,
    r2: Seq<u8>,
    total: nat,
)
    requires
        verify_outcome(proof, index, leaf, r1, total) == Ok::<bool, crate::error::MerkleError>(true),
        r1 != r2,
    ensures
        verify_outcome(proof, index, leaf, r2, total) == Ok::<bool, crate::error::MerkleError>(false),
{
}

/// Two trees built from the same inputs under the same entropy have the same
/// salts, the same leaf digests and the same root.
pub proof fn law_deterministic(inputs: Seq<LeafInput>, e: Seq<u8>, t1: TreeEntry, t2: TreeEntry)
    requires
        built_from(inputs, e, t1),
        built_from(inputs, e, t2),
    ensures
        forall|j: int|
            0 <= j < inputs.len() ==> (#[trigger] t1.data_blocks@[j]).salt@ == t2.data_blocks@[j].salt@,
        digests(t1.leaves@) == digests(t2.leaves@),
        t1.root@ == t2.root@,
{
    let b1 = t1.data_blocks@;
    let b2 = t2.data_blocks@;
    assert forall|j: int| 0 <= j < b1.len() implies (#[trigger] leaf_digests(b1)[j]) == leaf_digests(b2)[j] by {
        assert(b1[j].label == b2[j].label);
        assert(b1[j].salt@ == b2[j].salt@);
    }
    assert(leaf_digests(b1) =~= leaf_digests(b2));
}

} // verus!
