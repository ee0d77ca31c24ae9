//! Leaves: salting a labelled value and hashing the salted block.
use vstd::prelude::*;
use crate::digest::{sha256_of, hmac_sha256_of, sha256_digest, hmac_sha256};
use crate::error::MerkleError;
use crate::value::{Value, value_bytes, str_bytes, bin_bytes, write_value, write_str, write_bin};

verus! {

/// A labelled value not yet salted.
#[derive(Debug)]
pub struct LeafInput {
    /// The field descriptor.
    pub label: String,
    /// The field data.
    pub value: Value,
}

/// The piece of data that a leaf stands for: a labelled value with its salt.
#[derive(Debug)]
pub struct LeafDataBlock {
    /// The field descriptor.
    pub label: String,
    /// The field data.
    pub value: Value,
    /// Secret bytes that keep the value from being guessed.
    pub salt: Vec<u8>,
}

pub open spec fn le32(x: nat) -> Seq<u8> {
    seq![
        (x % 256) as u8,
        ((x / 256) % 256) as u8,
        ((x / 65536) % 256) as u8,
        ((x / 16777216) % 256) as u8,
    ]
}

/// The 8-byte little-endian form of a 64-bit number.
pub open spec fn le64(x: nat) -> Seq<u8> {
    le32(x % 4294967296) + le32(x / 4294967296)
}

/// The salt of leaf `index`: its 8-byte little-endian position, keyed by the entropy.
pub open spec fn salt_of(entropy: Seq<u8>, index: nat) -> Seq<u8> {
    hmac_sha256_of(entropy, le64(index))
}

/// The canonical encoding of a block: a three-item array of label, value and salt.
pub open spec fn block_bytes(label: Seq<char>, value: Value, salt: Seq<u8>) -> Option<Seq<u8>> {
    match (str_bytes(label), value_bytes(value), bin_bytes(salt)) {
        (Some(l), Some(v), Some(s)) => Some(seq![0x93u8] + l + v + s),
        _ => None,
    }
}

impl LeafDataBlock {
    /// The canonical encoding of this block, when it has one.
    pub open spec fn encoding(&self) -> Option<Seq<u8>> {
        block_bytes(self.label@, self.value, self.salt@)
    }

    /// The digest of this block: SHA-256 over its canonical encoding.
    pub open spec fn digest(&self) -> Seq<u8> {
        sha256_of(self.encoding()->Some_0)
    }

    /// The SHA-256 digest of this block's canonical encoding.
    pub fn hash(&self) -> (r: Result<[u8; 32], MerkleError>)
        ensures
            r is Ok <==> self.encoding() is Some,
            r is Ok ==> r->Ok_0@ == self.digest(),
            r is Err ==> r->Err_0 == MerkleError::SerializationError,
    {
        let mut out: Vec<u8> = Vec::new();
        out.push(0x93);
        if !write_str(&mut out, &self.label) {
            return Err(MerkleError::SerializationError);
        }
        if !write_value(&self.value, &mut out) {
            return Err(MerkleError::SerializationError);
        }
        if !write_bin(&mut out, &self.salt) {
            return Err(MerkleError::SerializationError);
        }
        assert(out@ =~= self.encoding()->Some_0);
        Ok(sha256_digest(&out))
    }
}

/// The SHA-256 digest of the canonical encoding of a value.
pub fn sha256(data: &Value) -> (r: Result<[u8; 32], MerkleError>)
    ensures
        r is Ok <==> value_bytes(*data) is Some,
        r is Ok ==> r->Ok_0@ == sha256_of(value_bytes(*data)->Some_0),
        r is Err ==> r->Err_0 == MerkleError::SerializationError,
{
    let mut out: Vec<u8> = Vec::new();
    if !write_value(data, &mut out) {
        return Err(MerkleError::SerializationError);
    }
    assert(out@ =~= value_bytes(*data)->Some_0);
    Ok(sha256_digest(&out))
}

/// The 8-byte little-endian form of `x`.
pub fn le_bytes(x: u64) -> (r: Vec<u8>)
    ensures
        r@ == le64(x as nat),
{
    let mut out: Vec<u8> = Vec::new();
    let lo = x % 4294967296;
    let hi = x / 4294967296;
    out.push((lo % 256) as u8);
    out.push((lo / 256 % 256) as u8);
    out.push((lo / 65536 % 256) as u8);
    out.push((lo / 16777216 % 256) as u8);
    out.push((hi % 256) as u8);
    out.push((hi / 256 % 256) as u8);
    out.push((hi / 65536 % 256) as u8);
    out.push((hi / 16777216 % 256) as u8);
    assert(out@ =~= le64(x as nat));
    out
}

/// The salt of leaf `index` under `entropy`; empty entropy is refused.
pub fn derive_salt(entropy: &Vec<u8>, index: u64) -> (r: Result<Vec<u8>, MerkleError>)
    ensures
        r is Err <==> entropy@.len() == 0,
        r is Err ==> r->Err_0 == MerkleError::KeyError,
        r is Ok ==> r->Ok_0@ == salt_of(entropy@, index as nat),
        r is Ok ==> r->Ok_0@.len() == 32,
{
    if entropy.len() == 0 {
        return Err(MerkleError::KeyError);
    }
    let msg = le_bytes(index);
    let mac = hmac_sha256(entropy, &msg);
    let mut salt: Vec<u8> = Vec::new();
    let mut i: usize = 0;
    while i < 32
        invariant
            i <= 32,
            salt@ == mac@.subrange(0, i as int),
        decreases 32 - i,
    {
        salt.push(mac[i]);
        i = i + 1;
    }
    assert(salt@ =~= mac@);
    Ok(salt)
}

impl LeafInput {
    /// Salts this input as leaf `index` of a tree keyed by `entropy`.
    pub fn into_data_block(self, entropy: &Vec<u8>, index: u64) -> (r: Result<LeafDataBlock, MerkleError>)
        ensures
            r is Err <==> entropy@.len() == 0,
            r is Err ==> r->Err_0 == MerkleError::KeyError,
            r is Ok ==> r->Ok_0.label == self.label && r->Ok_0.value == self.value
                && r->Ok_0.salt@ == salt_of(entropy@, index as nat) && r->Ok_0.salt@.len() == 32,
    {
        match derive_salt(entropy, index) {
            Ok(salt) => Ok(LeafDataBlock { label: self.label, value: self.value, salt }),
            Err(e) => Err(e),
        }
    }
}

} // verus!
