//! Binary Merkle trees over 32-byte digests: building the root, extracting a
//! membership proof, and checking one.
use vstd::prelude::*;
use crate::digest::{sha256_of, sha256_digest, concat_digests};
use crate::error::MerkleError;

verus! {

/// The byte sequences of a list of digests.
pub open spec fn digests(v: Seq<[u8; 32]>) -> Seq<Seq<u8>> {
    v.map_values(|d: [u8; 32]| d@)
}

/// The parent of two nodes: SHA-256 over the left node's bytes followed by the right's.
pub open spec fn combine(left: Seq<u8>, right: Seq<u8>) -> Seq<u8> {
    sha256_of(left + right)
}

/// The level above `level`: nodes are paired left to right, and a last node
/// without a partner moves up unchanged.
pub open spec fn next_level(level: Seq<Seq<u8>>) -> Seq<Seq<u8>> {
    Seq::new(
        ((level.len() + 1) / 2) as nat,
        |i: int|
            if 2 * i + 1 < level.len() {
                combine(level[2 * i], level[2 * i + 1])
            } else {
                level[2 * i]
            },
    )
}

/// The root of the tree whose bottom level is `level` (which must be non-empty).
pub open spec fn root_of(level: Seq<Seq<u8>>) -> Seq<u8>
    decreases level.len(),
{
    if level.len() <= 1 {
        level[0]
    } else {
        root_of(next_level(level))
    }
}

/// Whether position `pos` is the last, partnerless node of a level of `n` nodes.
pub open spec fn is_unpaired(pos: int, n: int) -> bool {
    n % 2 == 1 && pos == n - 1
}

/// The position of the node that `pos` is paired with.
pub open spec fn sibling_of(pos: int) -> int {
    if pos % 2 == 0 {
        pos + 1
    } else {
        pos - 1
    }
}

/// The siblings met on the way from position `pos` of `level` up to the root,
/// bottom first; a level where the node has no partner adds nothing.
pub open spec fn proof_path(level: Seq<Seq<u8>>, pos: int) -> Seq<Seq<u8>>
    decreases level.len(),
{
    if level.len() <= 1 {
        seq![]
    } else if is_unpaired(pos, level.len() as int) {
        proof_path(next_level(level), pos / 2)
    } else {
        seq![level[sibling_of(pos)]] + proof_path(next_level(level), pos / 2)
    }
}

/// Recomputes the root from node `cur` at position `pos` of a level of `rem`
/// nodes, taking siblings from `proof` in order; `None` when the proof runs
/// out early or has digests left over at the root.
pub open spec fn climb(cur: Seq<u8>, pos: nat, rem: nat, proof: Seq<Seq<u8>>) -> Option<Seq<u8>>
    decreases rem,
{
    if rem <= 1 {
        if proof.len() == 0 {
            Some(cur)
        } else {
            None
        }
    } else if is_unpaired(pos as int, rem as int) {
        climb(cur, pos / 2, (rem + 1) / 2, proof)
    } else if proof.len() == 0 {
        None
    } else {
        let up = if pos % 2 == 0 {
            combine(cur, proof[0])
        } else {
            combine(proof[0], cur)
        };
        climb(up, pos / 2, (rem + 1) / 2, proof.drop_first())
    }
}

/// What checking `proof` for `leaf` at `index` of a tree of `total` leaves
/// against `root` yields: a mismatch of lengths is an error, otherwise whether
/// the recomputed root equals `root`. A position outside the tree matches nothing.
pub open spec fn verify_outcome(
    proof: Seq<Seq<u8>>,
    index: nat,
    leaf: Seq<u8>,
    root: Seq<u8>,
    total: nat,
) -> Result<bool, MerkleError> {
    if index >= total {
        Ok(false)
    } else {
        match climb(leaf, index, total, proof) {
            Some(r) => Ok(r == root),
            None => Err(MerkleError::ProofLengthMismatch),
        }
    }
}

proof fn lemma_next_level_len(level: Seq<Seq<u8>>)
    ensures
        next_level(level).len() == (level.len() + 1) / 2,
        level.len() >= 2 ==> next_level(level).len() < level.len(),
        level.len() >= 1 ==> next_level(level).len() >= 1,
{
}

/// The parent of two digests.
pub fn combine_digests(left: &[u8; 32], right: &[u8; 32]) -> (r: [u8; 32])
    ensures
        r@ == combine(left@, right@),
{
    let bytes = concat_digests(left, right);
    sha256_digest(&bytes)
}

/// Computes the level above `level`.
pub fn parent_level(level: &Vec<[u8; 32]>) -> (r: Vec<[u8; 32]>)
    ensures
        digests(r@) == next_level(digests(level@)),
{
    let n = level.len();
    let mut out: Vec<[u8; 32]> = Vec::new();
    let mut k: usize = 0;
    while k < n - k
        invariant
            n == level@.len(),
            k <= n - k + 1,
            2 * k <= n + 1,
            out@.len() == k,
            forall|j: int| 0 <= j < k ==> #[trigger] out@[j]@ == next_level(digests(level@))[j],
        decreases n - k,
    {
        let i = 2 * k;
        if i + 1 < n {
            let p = combine_digests(&level[i], &level[i + 1]);
            out.push(p);
        } else {
            out.push(level[i]);
        }
        k = k + 1;
    }
    assert(digests(out@) =~= next_level(digests(level@)));
    out
}

/// A copy of a list of digests.
pub fn copy_digests(v: &Vec<[u8; 32]>) -> (r: Vec<[u8; 32]>)
    ensures
        r@ == v@,
{
    let mut out: Vec<[u8; 32]> = Vec::new();
    let mut i: usize = 0;
    while i < v.len()
        invariant
            i <= v@.len(),
            out@ == v@.subrange(0, i as int),
        decreases v@.len() - i,
    {
        out.push(v[i]);
        i = i + 1;
    }
    assert(out@ =~= v@);
    out
}

/// The root of the tree over `leaves`, in the order given.
pub fn merkle_root(leaves: &Vec<[u8; 32]>) -> (r: [u8; 32])
    requires
        leaves@.len() >= 1,
    ensures
        r@ == root_of(digests(leaves@)),
{
    let mut cur: Vec<[u8; 32]> = copy_digests(leaves);
    while cur.len() > 1
        invariant
            cur@.len() >= 1,
            root_of(digests(cur@)) == root_of(digests(leaves@)),
        decreases cur@.len(),
    {
        let next = parent_level(&cur);
        proof {
            lemma_next_level_len(digests(cur@));
        }
        cur = next;
    }
    cur[0]
}

/// The sibling digests that lead from leaf `index` to the root, bottom first.
pub fn merkle_proof(leaves: &Vec<[u8; 32]>, index: usize) -> (r: Vec<[u8; 32]>)
    requires
        index < leaves@.len(),
    ensures
        digests(r@) == proof_path(digests(leaves@), index as int),
{
    let mut cur: Vec<[u8; 32]> = copy_digests(leaves);
    let mut pos: usize = index;
    let mut out: Vec<[u8; 32]> = Vec::new();
    while cur.len() > 1
        invariant
            pos < cur@.len(),
            digests(out@) + proof_path(digests(cur@), pos as int) == proof_path(
                digests(leaves@),
                index as int,
            ),
        decreases cur@.len(),
    {
        let n = cur.len();
        let ghost before = digests(out@);
        if !(n % 2 == 1 && pos == n - 1) {
            let sib = if pos % 2 == 0 {
                pos + 1
            } else {
                pos - 1
            };
            out.push(cur[sib]);
            assert(digests(out@) =~= before + seq![digests(cur@)[sibling_of(pos as int)]]);
        }
        let next = parent_level(&cur);
        proof {
            lemma_next_level_len(digests(cur@));
        }
        cur = next;
        pos = pos / 2;
    }
    assert(digests(out@) + seq![] =~= digests(out@));
    out
}

/// Climbing from any leaf with the path extracted for it reaches the root.
pub proof fn lemma_climb_proof_path(level: Seq<Seq<u8>>, pos: int)
    requires
        0 <= pos < level.len(),
    ensures
        climb(level[pos], pos as nat, level.len(), proof_path(level, pos)) == Some(root_of(level)),
    decreases level.len(),
{
    if level.len() > 1 {
        let nx = next_level(level);
        lemma_next_level_len(level);
        lemma_climb_proof_path(nx, pos / 2);
        let rest = proof_path(nx, pos / 2);
        if !is_unpaired(pos, level.len() as int) {
            assert((seq![level[sibling_of(pos)]] + rest).drop_first() =~= rest);
        }
    }
}

/// Whether two digests hold the same bytes.
pub fn digest_eq(a: &[u8; 32], b: &[u8; 32]) -> (r: bool)
    ensures
        r == (a@ == b@),
{
    let mut i: usize = 0;
    while i < 32
        invariant
            i <= 32,
            a@.subrange(0, i as int) == b@.subrange(0, i as int),
        decreases 32 - i,
    {
        if a[i] != b[i] {
            assert(a@[i as int] != b@[i as int]);
            return false;
        }
        assert(a@.subrange(0, i + 1) =~= a@.subrange(0, i as int).push(a@[i as int]));
        assert(b@.subrange(0, i + 1) =~= b@.subrange(0, i as int).push(b@[i as int]));
        i = i + 1;
    }
    assert(a@ =~= a@.subrange(0, 32));
    assert(b@ =~= b@.subrange(0, 32));
    true
}

/// Checks `proof` for `leaf` at `index` of a tree of `total` leaves against `root`.
pub fn check_proof(
    proof: &Vec<[u8; 32]>,
    index: u64,
    leaf: &[u8; 32],
    root: &[u8; 32],
    total: u64,
) -> (r: Result<bool, MerkleError>)
    ensures
        r == verify_outcome(digests(proof@), index as nat, leaf@, root@, total as nat),
{
    if index >= total {
        return Ok(false);
    }
    let ghost all = digests(proof@);
    let mut cur: [u8; 32] = *leaf;
    let mut pos: u64 = index;
    let mut rem: u64 = total;
    let mut k: usize = 0;
    assert(all.subrange(0, all.len() as int) =~= all);
    while rem > 1
        invariant
            index < total,
            pos < rem,
            k <= proof@.len(),
            all == digests(proof@),
            climb(cur@, pos as nat, rem as nat, all.subrange(k as int, all.len() as int))
                == climb(leaf@, index as nat, total as nat, all),
        decreases rem,
    {
        let ghost tail = all.subrange(k as int, all.len() as int);
        if !(rem % 2 == 1 && pos == rem - 1) {
            if k == proof.len() {
                assert(tail.len() == 0);
                return Err(MerkleError::ProofLengthMismatch);
            }
            let s = &proof[k];
            assert(tail[0] == s@);
            cur = if pos % 2 == 0 {
                combine_digests(&cur, s)
            } else {
                combine_digests(s, &cur)
            };
            assert(tail.drop_first() =~= all.subrange(k + 1, all.len() as int));
            k = k + 1;
        }
        pos = pos / 2;
        rem = rem / 2 + rem % 2;
    }
    if k < proof.len() {
        return Err(MerkleError::ProofLengthMismatch);
    }
    assert(all.subrange(k as int, all.len() as int).len() == 0);
    Ok(digest_eq(&cur, root))
}

/// The root of the tree over `leaf_digests`; a tree needs at least one leaf.
pub fn build(leaf_digests: &Vec<[u8; 32]>) -> (r: Result<[u8; 32], MerkleError>)
    ensures
        r is Err <==> leaf_digests@.len() == 0,
        r is Err ==> r->Err_0 == MerkleError::EmptyTree,
        r is Ok ==> r->Ok_0@ == root_of(digests(leaf_digests@)),
{
    if leaf_digests.len() == 0 {
        return Err(MerkleError::EmptyTree);
    }
    Ok(merkle_root(leaf_digests))
}

/// The proof for leaf `target_index` of the tree over `leaf_digests`.
pub fn prove(leaf_digests: &Vec<[u8; 32]>, target_index: u64) -> (r: Result<Vec<[u8; 32]>, MerkleError>)
    ensures
        r is Err <==> target_index >= leaf_digests@.len(),
        r is Err ==> r->Err_0 == MerkleError::IndexOutOfRange,
        r is Ok ==> digests(r->Ok_0@) == proof_path(digests(leaf_digests@), target_index as int),
{
    if target_index >= leaf_digests.len() as u64 {
        return Err(MerkleError::IndexOutOfRange);
    }
    Ok(merkle_proof(leaf_digests, target_index as usize))
}

} // verus!
