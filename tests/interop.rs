use hmac::Mac;
use merklicious::commit::create_tree_with_entropy;
use merklicious::leaf::{derive_salt, LeafDataBlock, LeafInput};
use merklicious::tree::{build, combine_digests, prove};
use merklicious::validation::delete_link::LinkSource;
use merklicious::validation::{
    create_entry, create_link, delete_entry, delete_link, update_entry, EntryTypes, EntryTypesUnit, LinkTypes,
    ValidateCallbackResult,
};
use merklicious::value::{encode_value, Value};
use rs_merkle::{algorithms, Hasher, MerkleProof, MerkleTree};

fn to_rmpv(v: &Value) -> rmpv::Value {
    match v {
        Value::Nil => rmpv::Value::Nil,
        Value::Boolean(b) => rmpv::Value::Boolean(*b),
        Value::Integer(x) => rmpv::Value::from(*x),
        Value::UInteger(x) => rmpv::Value::from(*x),
        Value::F32(bits) => rmpv::Value::F32(f32::from_bits(*bits)),
        Value::F64(bits) => rmpv::Value::F64(f64::from_bits(*bits)),
        Value::String(s) => rmpv::Value::from(s.as_str()),
        Value::Binary(b) => rmpv::Value::Binary(b.clone()),
        Value::Array(items) => rmpv::Value::Array(items.iter().map(to_rmpv).collect()),
        Value::Mapping(entries) => rmpv::Value::Map(
            entries.iter().map(|(k, v)| (rmpv::Value::from(k.as_str()), to_rmpv(v))).collect(),
        ),
    }
}

fn rmp_bytes(v: &rmpv::Value) -> Vec<u8> {
    let mut out = Vec::new();
    rmpv::encode::write_value(&mut out, v).unwrap();
    out
}

fn samples() -> Vec<Value> {
    let mut values = vec![Value::Nil, Value::Boolean(false), Value::Boolean(true)];
    for x in [
        0i64, 1, 127, 128, 255, 256, 65535, 65536, 4294967295, 4294967296, i64::MAX, -1, -32, -33, -128, -129,
        -32768, -32769, -2147483648, -2147483649, i64::MIN,
    ] {
        values.push(Value::Integer(x));
    }
    for x in [0u64, 200, 70000, u64::MAX] {
        values.push(Value::UInteger(x));
    }
    values.push(Value::F32(1.5f32.to_bits()));
    values.push(Value::F64((-0.25f64).to_bits()));
    for n in [0usize, 31, 32, 255, 256, 65535, 65536] {
        values.push(Value::String("x".repeat(n)));
        values.push(Value::Binary(vec![9u8; n]));
    }
    values.push(Value::String("héllo wörld ✓".to_string()));
    for n in [0usize, 15, 16, 70000] {
        values.push(Value::Array((0..n).map(|i| Value::UInteger(i as u64)).collect()));
        values.push(Value::Mapping((0..n).map(|i| (format!("k{}", i), Value::Integer(-(i as i64)))).collect()));
    }
    values.push(Value::Array(vec![
        Value::Mapping(vec![("inner".to_string(), Value::Array(vec![Value::Nil, Value::Boolean(true)]))]),
        Value::String("tail".to_string()),
    ]));
    values
}

#[test]
fn value_encoding_matches_messagepack() {
    for v in samples() {
        assert_eq!(encode_value(&v).unwrap(), rmp_bytes(&to_rmpv(&v)), "{:?}", v);
    }
}

#[test]
fn block_digest_is_sha256_of_three_item_array() {
    let salt = derive_salt(&vec![5u8; 32], 2).unwrap();
    let block = LeafDataBlock {
        label: "name".to_string(),
        value: Value::String("Alice".to_string()),
        salt: salt.clone(),
    };
    let encoded = rmp_bytes(&rmpv::Value::Array(vec![
        rmpv::Value::from("name"),
        rmpv::Value::from("Alice"),
        rmpv::Value::Binary(salt),
    ]));
    assert_eq!(encoded[0], 0x93);
    assert_eq!(block.hash().unwrap(), algorithms::Sha256::hash(&encoded));
}

#[test]
fn salt_is_hmac_of_little_endian_index() {
    let entropy = vec![42u8; 32];
    let mut mac = hmac::Hmac::<sha2::Sha256>::new_from_slice(&entropy).unwrap();
    mac.update(&300u64.to_le_bytes());
    let expected = mac.finalize().into_bytes().to_vec();
    assert_eq!(derive_salt(&entropy, 300).unwrap(), expected);
    assert_ne!(derive_salt(&entropy, 300).unwrap(), entropy);
}

#[test]
fn parent_is_sha256_of_concatenation() {
    let l = [1u8; 32];
    let r = [2u8; 32];
    assert_eq!(combine_digests(&l, &r), algorithms::Sha256::concat_and_hash(&l, Some(&r)));
    assert_ne!(combine_digests(&l, &r), combine_digests(&r, &l));
}

#[test]
fn tree_agrees_with_rs_merkle() {
    for n in (1..=70usize).chain([255, 256, 257, 1000, 1025]) {
        let leaves: Vec<[u8; 32]> = (0..n).map(|i| algorithms::Sha256::hash(&(i as u64).to_le_bytes())).collect();
        let reference = MerkleTree::<algorithms::Sha256>::from_leaves(&leaves);
        assert_eq!(Some(build(&leaves).unwrap()), reference.root());
        let positions: Vec<usize> = if n <= 70 { (0..n).collect() } else { vec![0, 1, n / 2, n - 2, n - 1] };
        for j in positions {
            let ours = prove(&leaves, j as u64).unwrap();
            assert_eq!(ours, reference.proof(&[j]).proof_hashes().to_vec(), "n = {}, j = {}", n, j);
            let proof = MerkleProof::<algorithms::Sha256>::new(ours);
            assert!(proof.verify(reference.root().unwrap(), &[j], &[leaves[j]], n));
        }
    }
}

#[test]
fn created_root_agrees_with_rs_merkle() {
    let inputs: Vec<LeafInput> = (0..6)
        .map(|i| LeafInput { label: format!("l{}", i), value: Value::Integer(i) })
        .collect();
    let tree = create_tree_with_entropy(inputs, vec![8u8; 32]).unwrap();
    let reference = MerkleTree::<algorithms::Sha256>::from_leaves(&tree.leaves);
    assert_eq!(Some(tree.root), reference.root());
}

#[test]
fn trees_cannot_be_deleted() {
    match delete_entry::validation(EntryTypesUnit::Tree) {
        ValidateCallbackResult::Invalid(msg) => assert_eq!(msg, "Trees cannot be deleted"),
        ValidateCallbackResult::Valid => panic!("tree deletion was accepted"),
    }
}

#[test]
fn tree_links_are_deleted_by_their_author_only() {
    let author = vec![1u8, 2, 3];
    let own = LinkSource::CreateLink { author: author.clone(), link_type: Some(LinkTypes::Tree) };
    assert!(matches!(delete_link::validation(&own, &author), ValidateCallbackResult::Valid));
    match delete_link::validation(&own, &vec![1u8, 2, 4]) {
        ValidateCallbackResult::Invalid(msg) => {
            assert_eq!(msg, "A group link can only be deleted by the author who created it")
        }
        ValidateCallbackResult::Valid => panic!("deletion by another agent was accepted"),
    }
    let untyped = LinkSource::CreateLink { author: author.clone(), link_type: None };
    match delete_link::validation(&untyped, &author) {
        ValidateCallbackResult::Invalid(msg) => assert_eq!(msg, "No match for LinkTypes"),
        ValidateCallbackResult::Valid => panic!("untyped link deletion was accepted"),
    }
    match delete_link::validation(&LinkSource::Other, &author) {
        ValidateCallbackResult::Invalid(msg) => {
            assert_eq!(msg, "Original action hash does not belong to create link action")
        }
        ValidateCallbackResult::Valid => panic!("deletion of a non-link was accepted"),
    }
}

#[test]
fn link_type_names() {
    assert_eq!(LinkTypes::try_from("Tree".to_string()), Ok(LinkTypes::Tree));
    assert_eq!(LinkTypes::try_from("tree".to_string()), Err("Unknown LinkTypes variant: tree".to_string()));
}

fn small_tree() -> EntryTypes {
    let inputs = vec![LeafInput { label: "a".to_string(), value: Value::Nil }];
    EntryTypes::Tree(create_tree_with_entropy(inputs, vec![1u8; 32]).unwrap())
}

#[test]
fn trees_are_created_but_never_updated() {
    let entry = small_tree();
    assert!(matches!(create_entry::validation(&entry), ValidateCallbackResult::Valid));
    match update_entry::validation(&entry) {
        ValidateCallbackResult::Invalid(msg) => {
            assert_eq!(msg, "Merkle Trees cannot be updated; use Create instead")
        }
        ValidateCallbackResult::Valid => panic!("tree update was accepted"),
    }
}

#[test]
fn tree_links_start_from_their_author() {
    let author = vec![7u8; 39];
    let ok = create_link::validation(&Some(author.clone()), true, LinkTypes::Tree, &author);
    assert!(matches!(ok, Ok(ValidateCallbackResult::Valid)));
    match create_link::validation(&None, false, LinkTypes::Tree, &author) {
        Ok(ValidateCallbackResult::Invalid(msg)) => {
            assert_eq!(msg, "Tree link base address must be an agent pubkey")
        }
        _ => panic!("link from a non-agent base was not refused"),
    }
    let other = create_link::validation(&Some(vec![8u8; 39]), true, LinkTypes::Tree, &author);
    assert!(matches!(other, Ok(ValidateCallbackResult::Invalid(_))));
    assert_eq!(
        create_link::validation(&Some(author.clone()), false, LinkTypes::Tree, &author).unwrap_err(),
        "Tree link target must be a tree entry"
    );
}

#[test]
fn salts_are_thirty_two_bytes() {
    assert_eq!(derive_salt(&vec![1u8], 0).unwrap().len(), 32);
    let block = LeafInput { label: "x".to_string(), value: Value::Nil }.into_data_block(&vec![2u8; 3], 9).unwrap();
    assert_eq!(block.salt.len(), 32);
}
