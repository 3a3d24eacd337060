//! The Merkle commitment of an ordered list of transaction identifiers.
use vstd::prelude::*;
use crate::crypto::{hash, sha256_of};

verus! {

/// A Merkle tree, as its root and its leaves.
#[derive(Debug)]
pub struct MerkleTree {
    pub root: crate::crypto::Hash,
    pub leaves: Vec<crate::crypto::Hash>,
}

/// The byte strings of a list of digests.
pub open spec fn hash_views(hs: Seq<crate::crypto::Hash>) -> Seq<Seq<u8>> {
    hs.map_values(|h: crate::crypto::Hash| h@)
}

/// The digest of the `k`-th pair of a level; the last item of a level of odd
/// length is paired with itself.
pub open spec fn pair_hash(level: Seq<Seq<u8>>, k: int) -> Seq<u8> {
    let right = if 2 * k + 1 < level.len() {
        level[2 * k + 1]
    } else {
        level[2 * k]
    };
    sha256_of(level[2 * k] + right)
}

/// The level above: one digest per pair.
pub open spec fn next_level(level: Seq<Seq<u8>>) -> Seq<Seq<u8>> {
    Seq::new(((level.len() + 1) / 2) as nat, |k: int| pair_hash(level, k))
}

/// The single digest that a non-empty level reduces to.
pub open spec fn reduce_level(level: Seq<Seq<u8>>) -> Seq<u8>
    decreases level.len(),
{
    if level.len() <= 1 {
        level[0]
    } else {
        reduce_level(next_level(level))
    }
}

/// Thirty-two zero bytes, the root of an empty tree.
pub open spec fn zero_hash() -> Seq<u8> {
    Seq::new(32, |i: int| 0u8)
}

/// The Merkle root of a list of leaves.
pub open spec fn merkle_root_of(leaves: Seq<Seq<u8>>) -> Seq<u8> {
    if leaves.len() == 0 {
        zero_hash()
    } else {
        reduce_level(leaves)
    }
}

/// The 64 bytes of two digests, one after the other.
fn concat_hashes(a: &crate::crypto::Hash, b: &crate::crypto::Hash) -> (r: Vec<u8>)
    ensures
        r@ == a@ + b@,
{
    let mut out: Vec<u8> = Vec::new();
    crate::encoding::put_hash(&mut out, a);
    crate::encoding::put_hash(&mut out, b);
    assert(out@ =~= a@ + b@);
    out
}

impl MerkleTree {
    /// Builds the tree over the given leaves, reducing pairwise level by level.
    pub fn build(transaction_hashes: Vec<crate::crypto::Hash>) -> (r: MerkleTree)
        ensures
            r.root@ == merkle_root_of(hash_views(transaction_hashes@)),
            r.leaves@ == transaction_hashes@,
    {
        if transaction_hashes.len() == 0 {
            let r = MerkleTree { root: [0u8; 32], leaves: transaction_hashes };
            assert(r.root@ =~= zero_hash());
            return r;
        }
        let mut level: Vec<crate::crypto::Hash> = Vec::new();
        let mut i: usize = 0;
        while i < transaction_hashes.len()
            invariant
                i <= transaction_hashes@.len(),
                level@ == transaction_hashes@.subrange(0, i as int),
            decreases transaction_hashes@.len() - i,
        {
            level.push(transaction_hashes[i]);
            i = i + 1;
            assert(level@ =~= transaction_hashes@.subrange(0, i as int));
        }
        assert(level@ =~= transaction_hashes@);
        while level.len() > 1
            invariant
                level@.len() >= 1,
                reduce_level(hash_views(level@)) == reduce_level(hash_views(transaction_hashes@)),
            decreases level@.len(),
        {
            let n = level.len();
            let ghost cur = hash_views(level@);
            let mut next: Vec<crate::crypto::Hash> = Vec::new();
            let mut k: usize = 0;
            while k < (n - 1) / 2 + 1
                invariant
                    n == level@.len(),
                    n >= 2,
                    cur == hash_views(level@),
                    k <= (n - 1) / 2 + 1,
                    next@.len() == k,
                    forall|j: int| 0 <= j < k ==> (#[trigger] next@[j])@ == pair_hash(cur, j),
                decreases (n - 1) / 2 + 1 - k,
            {
                let left = level[2 * k];
                let right = if 2 * k + 1 < n {
                    level[2 * k + 1]
                } else {
                    level[2 * k]
                };
                let combined = concat_hashes(&left, &right);
                let h = hash(combined.as_slice());
                next.push(h);
                k = k + 1;
            }
            assert(hash_views(next@) =~= next_level(cur));
            level = next;
        }
        let r = MerkleTree { root: level[0], leaves: transaction_hashes };
        r
    }
}

/// A tree of one leaf has that leaf as its root.
pub proof fn lemma_single_leaf_root(h: Seq<u8>)
    ensures
        merkle_root_of(seq![h]) == h,
{
}

/// At a level of odd length (three or more), the last item stands as its own
/// pair: the root is that of the same level with the last item written twice.
pub proof fn lemma_odd_level_duplicates_last(level: Seq<Seq<u8>>)
    requires
        level.len() >= 3,
        level.len() % 2 == 1,
    ensures
        merkle_root_of(level) == merkle_root_of(level.push(level.last())),
{
    let doubled = level.push(level.last());
    assert(next_level(level) =~= next_level(doubled));
}

} // verus!
