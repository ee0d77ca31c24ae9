use merklicious::commit::{
    ClaimEntry, CommonFields,
    create_tree, create_tree_with_entropy, get_leaf_proof, hash_data_block, verify_leaf_proof, CreateTreeInput,
    LeafProofPayload, TreeEntry, VerifyLeafProofInput,
};
use merklicious::error::MerkleError;
use merklicious::leaf::{derive_salt, sha256, LeafDataBlock, LeafInput};
use merklicious::value::Value;

fn input(label: &str, value: Value) -> LeafInput {
    LeafInput { label: label.to_string(), value }
}

fn abc(b_value: i64) -> Vec<LeafInput> {
    vec![
        input("a", Value::Integer(1)),
        input("b", Value::Integer(b_value)),
        input("c", Value::Integer(3)),
    ]
}

fn numbered(n: usize) -> Vec<LeafInput> {
    (0..n).map(|i| input(&format!("field{}", i), Value::UInteger(i as u64 * 7))).collect()
}

fn check(p: &LeafProofPayload, root: [u8; 32]) -> Result<bool, MerkleError> {
    verify_leaf_proof(VerifyLeafProofInput {
        proof: p.proof.clone(),
        index: p.index,
        leaf: p.leaf,
        root,
        total_leaves: p.total_leaves,
    })
}

fn root_of(inputs: Vec<LeafInput>, entropy: Vec<u8>) -> TreeEntry {
    create_tree_with_entropy(inputs, entropy).unwrap()
}

const FIXTURE_ROOT: [u8; 32] = [
    209, 156, 161, 246, 60, 82, 88, 171, 141, 114, 51, 232, 134, 170, 31, 162, 8, 249, 79, 218, 195, 213, 108,
    11, 86, 56, 4, 88, 7, 70, 209, 108,
];

#[test]
fn test_sha256() {
    assert_eq!(
        sha256(&Value::Nil).unwrap(),
        [
            228, 255, 94, 125, 122, 127, 8, 233, 128, 10, 62, 37, 203, 119, 69, 51, 203, 32, 4, 13, 243, 11,
            107, 161, 15, 149, 111, 154, 205, 14, 179, 247
        ]
    );
}

#[test]
fn concrete_scenario_three_leaves() {
    let tree = root_of(abc(2), vec![0u8; 32]);
    assert_eq!(tree.root, FIXTURE_ROOT);
    assert_eq!(
        tree.root_as_hex(),
        "d19ca1f63c5258ab8d7233e886aa1fa208f94fdac3d56c0b563804580746d16c"
    );
    let p = get_leaf_proof(tree, "b".to_string()).unwrap();
    assert_eq!(p.index, 1);
    assert_eq!(p.proof.len(), 2);
    assert_eq!(p.total_leaves, 3);
    assert_eq!(p.target.label, "b");
    assert_eq!(hex::encode(p.proof[0]), "5b8308456f12cada8cd824828b2a6c8d9afe798b5ece4dfe148afb73a571010d");
    assert_eq!(hex::encode(p.proof[1]), "61c46bd120c82dcc1ea244201db2b0971638dd7406afe6c67b322e1417a0c143");
    assert_eq!(check(&p, FIXTURE_ROOT), Ok(true));

    let changed = root_of(abc(99), vec![0u8; 32]);
    let changed_leaf = changed.leaves[1];
    let stale = VerifyLeafProofInput {
        proof: p.proof.clone(),
        index: 1,
        leaf: changed_leaf,
        root: FIXTURE_ROOT,
        total_leaves: 3,
    };
    assert_eq!(verify_leaf_proof(stale), Ok(false));
}

#[test]
fn round_trip_every_label_every_size() {
    for n in 1..=13usize {
        let entropy = vec![7u8; 32];
        let root = root_of(numbered(n), entropy.clone()).root;
        for j in 0..n {
            let tree = root_of(numbered(n), entropy.clone());
            let p = get_leaf_proof(tree, format!("field{}", j)).unwrap();
            assert_eq!(p.index, j as u64);
            assert_eq!(p.root, root);
            assert_eq!(check(&p, root), Ok(true), "n = {}, j = {}", n, j);
        }
    }
}

#[test]
fn tamper_changes_root_and_breaks_stale_proof() {
    let entropy = vec![3u8; 32];
    let base = root_of(abc(2), entropy.clone());
    let p = get_leaf_proof(root_of(abc(2), entropy.clone()), "a".to_string()).unwrap();

    let relabelled = root_of(
        vec![input("a", Value::Integer(1)), input("B", Value::Integer(2)), input("c", Value::Integer(3))],
        entropy.clone(),
    );
    let permuted = root_of(
        vec![input("b", Value::Integer(2)), input("a", Value::Integer(1)), input("c", Value::Integer(3))],
        entropy.clone(),
    );
    let revalued = root_of(abc(3), entropy.clone());
    for other in [&relabelled, &permuted, &revalued] {
        assert_ne!(other.root, base.root);
        assert_eq!(check(&p, other.root), Ok(false));
    }

    let mut block = LeafDataBlock {
        label: "a".to_string(),
        value: Value::Integer(1),
        salt: derive_salt(&entropy, 0).unwrap(),
    };
    assert_eq!(hash_data_block(LeafDataBlock { label: "a".to_string(), value: Value::Integer(1), salt: block.salt.clone() }).unwrap(), base.leaves[0]);
    block.salt[5] ^= 1;
    assert_ne!(block.hash().unwrap(), base.leaves[0]);
}

#[test]
fn determinism_of_salts_digests_and_roots() {
    let entropy = vec![11u8; 32];
    assert_eq!(derive_salt(&entropy, 4).unwrap(), derive_salt(&entropy, 4).unwrap());
    assert_ne!(derive_salt(&entropy, 4).unwrap(), derive_salt(&entropy, 5).unwrap());
    let t1 = root_of(numbered(6), entropy.clone());
    let t2 = root_of(numbered(6), entropy.clone());
    assert_eq!(t1.root, t2.root);
    assert_eq!(t1.leaves, t2.leaves);
    let t3 = root_of(numbered(6), vec![12u8; 32]);
    assert_ne!(t1.root, t3.root);
}

#[test]
fn single_leaf_tree() {
    let tree = root_of(vec![input("only", Value::Boolean(true))], vec![1u8; 32]);
    assert_eq!(tree.root, tree.leaves[0]);
    let root = tree.root;
    let p = get_leaf_proof(tree, "only".to_string()).unwrap();
    assert!(p.proof.is_empty());
    assert_eq!(
        verify_leaf_proof(VerifyLeafProofInput { proof: vec![], index: 0, leaf: root, root, total_leaves: 1 }),
        Ok(true)
    );
}

#[test]
fn cross_root_rejection() {
    let t1 = root_of(numbered(5), vec![1u8; 32]);
    let t2 = root_of(numbered(5), vec![2u8; 32]);
    let r1 = t1.root;
    let p = get_leaf_proof(t1, "field3".to_string()).unwrap();
    assert_eq!(check(&p, r1), Ok(true));
    assert_eq!(check(&p, t2.root), Ok(false));
}

#[test]
fn empty_tree_is_refused() {
    assert_eq!(create_tree_with_entropy(vec![], vec![1u8; 32]).unwrap_err(), MerkleError::EmptyTree);
    assert_eq!(merklicious::tree::build(&vec![]), Err(MerkleError::EmptyTree));
}

#[test]
fn empty_entropy_is_refused() {
    assert_eq!(create_tree_with_entropy(abc(2), vec![]).unwrap_err(), MerkleError::KeyError);
    assert_eq!(derive_salt(&vec![], 0), Err(MerkleError::KeyError));
    assert_eq!(
        input("x", Value::Nil).into_data_block(&vec![], 0).unwrap_err(),
        MerkleError::KeyError
    );
}

#[test]
fn missing_label_is_reported() {
    let tree = root_of(abc(2), vec![1u8; 32]);
    assert_eq!(get_leaf_proof(tree, "z".to_string()).unwrap_err(), MerkleError::LabelNotFound);
}

#[test]
fn duplicate_label_proves_first_block() {
    let tree = root_of(
        vec![input("k", Value::Integer(1)), input("k", Value::Integer(2))],
        vec![1u8; 32],
    );
    let first = tree.leaves[0];
    let p = get_leaf_proof(tree, "k".to_string()).unwrap();
    assert_eq!(p.index, 0);
    assert_eq!(p.leaf, first);
}

#[test]
fn index_out_of_range_is_reported() {
    let leaves = vec![[1u8; 32], [2u8; 32], [3u8; 32]];
    assert_eq!(merklicious::tree::prove(&leaves, 3), Err(MerkleError::IndexOutOfRange));
    assert_eq!(merklicious::tree::prove(&leaves, 2).unwrap(), vec![merklicious::tree::combine_digests(&[1u8; 32], &[2u8; 32])]);
}

#[test]
fn proof_length_mismatch_is_reported() {
    let tree = root_of(numbered(4), vec![1u8; 32]);
    let root = tree.root;
    let p = get_leaf_proof(tree, "field2".to_string()).unwrap();
    let mut long = p.proof.clone();
    long.push([0u8; 32]);
    let too_long = VerifyLeafProofInput { proof: long, index: 2, leaf: p.leaf, root, total_leaves: 4 };
    assert_eq!(verify_leaf_proof(too_long), Err(MerkleError::ProofLengthMismatch));
    let short = vec![p.proof[0]];
    let too_short = VerifyLeafProofInput { proof: short, index: 2, leaf: p.leaf, root, total_leaves: 4 };
    assert_eq!(verify_leaf_proof(too_short), Err(MerkleError::ProofLengthMismatch));
    let outside = VerifyLeafProofInput { proof: p.proof.clone(), index: 4, leaf: p.leaf, root, total_leaves: 4 };
    assert_eq!(verify_leaf_proof(outside), Ok(false));
}

#[test]
fn random_entropy_is_thirty_two_bytes() {
    let tree = create_tree(CreateTreeInput { leaves: abc(2), entropy: None }).unwrap();
    assert_eq!(tree.entropy.len(), 32);
    let again = root_of(abc(2), tree.entropy.clone());
    assert_eq!(again.root, tree.root);
    let given = create_tree(CreateTreeInput { leaves: abc(2), entropy: Some(vec![0u8; 32]) }).unwrap();
    assert_eq!(given.root, FIXTURE_ROOT);
}

#[test]
fn records_carry_empty_metadata_and_split_out_blocks() {
    let tree = root_of(abc(2), vec![1u8; 32]);
    assert!(tree.metadata().is_empty());
    let root = tree.root;
    let blocks = tree.into_data_blocks();
    assert_eq!(blocks.blocks.len(), 3);
    assert_eq!(blocks.blocks[2].label, "c");
    assert!(blocks.metadata().is_empty());
    let claim = ClaimEntry {
        name: "degree".to_string(),
        author: vec![4u8; 39],
        root,
        metadata: vec![("note".to_string(), Value::String("x".to_string()))],
    };
    assert_eq!(claim.metadata().len(), 1);
}
