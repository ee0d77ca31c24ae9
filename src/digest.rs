use vstd::prelude::*;

verus! {

/// The SHA-256 digest of a byte sequence.
pub uninterp spec fn sha256_of(data: Seq<u8>) -> Seq<u8>;

/// The HMAC-SHA256 tag of `msg` under `key`.
pub uninterp spec fn hmac_sha256_of(key: Seq<u8>, msg: Seq<u8>) -> Seq<u8>;

/// Relies on sha2::Sha256::digest: the 32-byte SHA-256 digest of `data`.
#[verifier::external_body]
pub(crate) fn sha256_digest(data: &Vec<u8>) -> (r: [u8; 32])
    ensures
        r@ == sha256_of(data@),
{
    <[u8; 32]>::from(<sha2::Sha256 as sha2::Digest>::digest(data.as_slice()))
}

/// Relies on hmac::Hmac<sha2::Sha256>: `new_from_slice` takes a key of any
/// length (it never fails), and `finalize` yields the 32-byte tag of `msg`.
#[verifier::external_body]
pub(crate) fn hmac_sha256(key: &Vec<u8>, msg: &Vec<u8>) -> (r: [u8; 32])
    ensures
        r@ == hmac_sha256_of(key@, msg@),
{
    let mut mac = <hmac::Hmac<sha2::Sha256> as hmac::Mac>::new_from_slice(key.as_slice()).unwrap();
    hmac::Mac::update(&mut mac, msg.as_slice());
    <[u8; 32]>::from(hmac::Mac::finalize(mac).into_bytes())
}

/// A fresh byte sequence holding the bytes of `left` followed by those of `right`.
pub fn concat_digests(left: &[u8; 32], right: &[u8; 32]) -> (r: Vec<u8>)
    ensures
        r@ == left@ + right@,
{
    let mut out: Vec<u8> = Vec::new();
    let mut i: usize = 0;
    while i < 32
        invariant
            i <= 32,
            out@ == left@.subrange(0, i as int),
        decreases 32 - i,
    {
        out.push(left[i]);
        i = i + 1;
    }
    assert(out@ == left@);
    let mut j: usize = 0;
    while j < 32
        invariant
            j <= 32,
            out@ == left@ + right@.subrange(0, j as int),
        decreases 32 - j,
    {
        out.push(right[j]);
        j = j + 1;
    }
    assert(right@.subrange(0, 32) == right@);
    out
}

} // verus!
