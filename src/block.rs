//! Blocks: their headers, their proof-of-work search and their structural checks.
use vstd::prelude::*;
use crate::crypto::{double_hash, double_sha256, hashes_equal};
use crate::encoding::{be_u32, be_u64, be_i64, put_u32, put_u64, put_i64, put_hash};
use crate::merkle::{MerkleTree, merkle_root_of};
use crate::transaction::{Transaction, is_coinbase, now_millis, signature_valid};

verus! {

/// The hashed part of a block.
#[derive(Debug, Clone, Copy)]
pub struct BlockHeader {
    pub version: u32,
    pub previous_block_hash: crate::crypto::Hash,
    pub merkle_root: crate::crypto::Hash,
    /// Milliseconds since the Unix epoch.
    pub timestamp: i64,
    pub difficulty_target: u32,
    pub nonce: u64,
    pub block_height: u64,
}

/// A header, the transactions it commits to, and the header's digest.
#[derive(Debug)]
pub struct Block {
    pub header: BlockHeader,
    pub transactions: Vec<Transaction>,
    pub hash: crate::crypto::Hash,
}

/// The encoded header.
pub open spec fn header_bytes(h: BlockHeader) -> Seq<u8> {
    be_u32(h.version) + h.previous_block_hash@ + h.merkle_root@ + be_i64(h.timestamp) + be_u32(
        h.difficulty_target,
    ) + be_u64(h.nonce) + be_u64(h.block_height)
}

/// The digest a block with this header must carry.
pub open spec fn block_hash_of(h: BlockHeader) -> Seq<u8> {
    double_sha256(header_bytes(h))
}

/// The identifiers of a list of transactions.
pub open spec fn tx_ids(txs: Seq<Transaction>) -> Seq<Seq<u8>> {
    txs.map_values(|t: Transaction| t.id@)
}

/// The difficulty in effect: the stored value, capped at sixteen.
pub open spec fn capped_difficulty(d: u32) -> u32 {
    if d < 16 {
        d
    } else {
        16
    }
}

/// The bound that the leading eight bytes of a mined hash must stay under.
pub open spec fn target_of(d: u32) -> u64 {
    0xffff_ffff_ffff_ffffu64 >> capped_difficulty(d)
}

/// The first eight bytes of a digest read as a big-endian number.
pub open spec fn leading_value(h: Seq<u8>) -> int {
    ((((((h[0] as int * 256 + h[1]) * 256 + h[2]) * 256 + h[3]) * 256 + h[4]) * 256 + h[5]) * 256
        + h[6]) * 256 + h[7]
}

/// Whether a digest meets the target of a difficulty.
pub open spec fn meets_target(h: Seq<u8>, d: u32) -> bool {
    leading_value(h) < target_of(d)
}

/// The header with another nonce.
pub open spec fn with_nonce(h: BlockHeader, nonce: u64) -> BlockHeader {
    BlockHeader { nonce, ..h }
}

/// Whether no nonce below `u64::MAX` makes the header's digest meet its target.
pub open spec fn nonces_exhausted(h: BlockHeader) -> bool {
    forall|k: u64|
        k < 0xffff_ffff_ffff_ffffu64 ==> !meets_target(
            #[trigger] block_hash_of(with_nonce(h, k)),
            h.difficulty_target,
        )
}

/// Whether the stored digest is the digest of the header.
pub open spec fn hash_matches(b: Block) -> bool {
    b.hash@ == block_hash_of(b.header)
}

/// Whether the stored Merkle root commits to the transactions.
pub open spec fn merkle_matches(b: Block) -> bool {
    b.header.merkle_root@ == merkle_root_of(tx_ids(b.transactions@))
}

/// Whether the `i`-th transaction is exempt from the signature check: a reward
/// at the head of the block.
pub open spec fn signature_exempt(b: Block, i: int) -> bool {
    i == 0 && is_coinbase(b.transactions@[i])
}

/// Whether every transaction but a leading reward carries a valid signature.
pub open spec fn signatures_hold(b: Block) -> bool {
    forall|i: int|
        0 <= i < b.transactions@.len() && !signature_exempt(b, i) ==> signature_valid(
            #[trigger] b.transactions@[i],
        )
}

/// The first eight bytes of a digest read as a big-endian `u64`.
pub fn leading_u64(h: &crate::crypto::Hash) -> (r: u64)
    ensures
        r == leading_value(h@),
{
    let mut acc: u64 = h[0] as u64;
    acc = acc * 256 + h[1] as u64;
    acc = acc * 256 + h[2] as u64;
    acc = acc * 256 + h[3] as u64;
    acc = acc * 256 + h[4] as u64;
    acc = acc * 256 + h[5] as u64;
    acc = acc * 256 + h[6] as u64;
    acc = acc * 256 + h[7] as u64;
    acc
}

/// The identifiers of the transactions, in order.
fn collect_ids(txs: &Vec<Transaction>) -> (r: Vec<crate::crypto::Hash>)
    ensures
        crate::merkle::hash_views(r@) == tx_ids(txs@),
{
    let mut ids: Vec<crate::crypto::Hash> = Vec::new();
    let mut i: usize = 0;
    while i < txs.len()
        invariant
            i <= txs@.len(),
            ids@.len() == i,
            forall|j: int| 0 <= j < i ==> #[trigger] ids@[j] == txs@[j].id,
        decreases txs@.len() - i,
    {
        ids.push(txs[i].id);
        i = i + 1;
    }
    assert(crate::merkle::hash_views(ids@) =~= tx_ids(txs@));
    ids
}

impl Block {
    /// A block at nonce zero over the given transactions, with the given time.
    pub fn with_timestamp(
        previous_block_hash: crate::crypto::Hash,
        transactions: Vec<Transaction>,
        difficulty_target: u32,
        block_height: u64,
        timestamp: i64,
    ) -> (r: Block)
        ensures
            r.header.version == 1,
            r.header.previous_block_hash == previous_block_hash,
            r.header.timestamp == timestamp,
            r.header.difficulty_target == difficulty_target,
            r.header.nonce == 0,
            r.header.block_height == block_height,
            r.transactions == transactions,
            merkle_matches(r),
            hash_matches(r),
    {
        let ids = collect_ids(&transactions);
        let tree = MerkleTree::build(ids);
        let header = BlockHeader {
            version: 1,
            previous_block_hash,
            merkle_root: tree.root,
            timestamp,
            difficulty_target,
            nonce: 0,
            block_height,
        };
        let mut block = Block { header, transactions, hash: [0u8; 32] };
        block.hash = block.calculate_hash();
        block
    }

    /// A block at nonce zero over the given transactions, stamped with the current time.
    pub fn new(
        previous_block_hash: crate::crypto::Hash,
        transactions: Vec<Transaction>,
        difficulty_target: u32,
        block_height: u64,
    ) -> (r: Block)
        ensures
            r.header.version == 1,
            r.header.previous_block_hash == previous_block_hash,
            r.header.difficulty_target == difficulty_target,
            r.header.nonce == 0,
            r.header.block_height == block_height,
            r.transactions == transactions,
            merkle_matches(r),
            hash_matches(r),
    {
        let now = now_millis();
        Block::with_timestamp(previous_block_hash, transactions, difficulty_target, block_height, now)
    }

    /// The double SHA-256 of the encoded header.
    pub fn calculate_hash(&self) -> (r: crate::crypto::Hash)
        ensures
            r@ == block_hash_of(self.header),
    {
        let h = &self.header;
        let mut out: Vec<u8> = Vec::new();
        put_u32(&mut out, h.version);
        put_hash(&mut out, &h.previous_block_hash);
        put_hash(&mut out, &h.merkle_root);
        put_i64(&mut out, h.timestamp);
        put_u32(&mut out, h.difficulty_target);
        put_u64(&mut out, h.nonce);
        put_u64(&mut out, h.block_height);
        assert(out@ =~= header_bytes(*h));
        double_hash(out.as_slice())
    }

    /// Tries nonces from zero upward until the digest meets the target; false when
    /// every nonce below `u64::MAX` has failed.
    pub fn mine(&mut self) -> (r: bool)
        ensures
            final(self).header.version == old(self).header.version,
            final(self).header.previous_block_hash == old(self).header.previous_block_hash,
            final(self).header.merkle_root == old(self).header.merkle_root,
            final(self).header.timestamp == old(self).header.timestamp,
            final(self).header.difficulty_target == old(self).header.difficulty_target,
            final(self).header.block_height == old(self).header.block_height,
            final(self).transactions == old(self).transactions,
            hash_matches(*final(self)),
            r ==> meets_target(final(self).hash@, final(self).header.difficulty_target),
            r ==> forall|k: u64|
                k < final(self).header.nonce ==> !meets_target(
                    #[trigger] block_hash_of(with_nonce(old(self).header, k)),
                    old(self).header.difficulty_target,
                ),
            !r ==> nonces_exhausted(old(self).header),
    {
        let zeros: u32 = if self.header.difficulty_target < 16 {
            self.header.difficulty_target
        } else {
            16
        };
        let target: u64 = 0xffff_ffff_ffff_ffffu64 >> zeros;
        let mut nonce: u64 = 0;
        while nonce < 0xffff_ffff_ffff_ffffu64
            invariant
                target == target_of(self.header.difficulty_target),
                self.header.version == old(self).header.version,
                self.header.previous_block_hash == old(self).header.previous_block_hash,
                self.header.merkle_root == old(self).header.merkle_root,
                self.header.timestamp == old(self).header.timestamp,
                self.header.difficulty_target == old(self).header.difficulty_target,
                self.header.block_height == old(self).header.block_height,
                self.transactions == old(self).transactions,
                nonce > 0 ==> hash_matches(*self),
                forall|k: u64|
                    k < nonce ==> !meets_target(
                        #[trigger] block_hash_of(with_nonce(old(self).header, k)),
                        old(self).header.difficulty_target,
                    ),
            decreases 0xffff_ffff_ffff_ffffu64 - nonce,
        {
            self.header.nonce = nonce;
            assert(self.header == with_nonce(old(self).header, nonce));
            self.hash = self.calculate_hash();
            if leading_u64(&self.hash) < target {
                return true;
            }
            nonce = nonce + 1;
        }
        false
    }

    /// Checks that the stored digest is that of the header, that the Merkle root
    /// commits to the transactions, and that every transaction but a leading
    /// reward carries a valid signature.
    pub fn validate(&self) -> (r: bool)
        ensures
            r == (hash_matches(*self) && merkle_matches(*self) && signatures_hold(*self)),
    {
        let h = self.calculate_hash();
        if !hashes_equal(&self.hash, &h) {
            return false;
        }
        let ids = collect_ids(&self.transactions);
        let tree = MerkleTree::build(ids);
        if !hashes_equal(&self.header.merkle_root, &tree.root) {
            return false;
        }
        let mut i: usize = 0;
        while i < self.transactions.len()
            invariant
                i <= self.transactions@.len(),
                hash_matches(*self),
                merkle_matches(*self),
                forall|j: int|
                    0 <= j < i && !signature_exempt(*self, j) ==> signature_valid(
                        #[trigger] self.transactions@[j],
                    ),
            decreases self.transactions@.len() - i,
        {
            let tx = &self.transactions[i];
            let exempt = i == 0 && tx.is_coinbase();
            if !exempt && !tx.verify_signature() {
                return false;
            }
            i = i + 1;
        }
        true
    }
}


impl Clone for Block {
    fn clone(&self) -> (r: Self)
        ensures
            r.header == self.header,
            r.hash == self.hash,
            tx_ids(r.transactions@) == tx_ids(self.transactions@),
    {
        let transactions = self.transactions.clone();
        assert(tx_ids(transactions@) =~= tx_ids(self.transactions@));
        Block { header: self.header, transactions, hash: self.hash }
    }
}


/// Equal big-endian encodings come from equal numbers.
pub proof fn lemma_be_u64_injective(x: u64, y: u64)
    requires
        be_u64(x) == be_u64(y),
    ensures
        x == y,
{
    let (a, b) = (be_u64(x), be_u64(y));
    assert(a[0] == b[0] && a[1] == b[1] && a[2] == b[2] && a[3] == b[3]);
    assert(a[4] == b[4] && a[5] == b[5] && a[6] == b[6] && a[7] == b[7]);
    assert(x == y) by (bit_vector)
        requires
            (x >> 56u64) as u8 == (y >> 56u64) as u8,
            (x >> 48u64) as u8 == (y >> 48u64) as u8,
            (x >> 40u64) as u8 == (y >> 40u64) as u8,
            (x >> 32u64) as u8 == (y >> 32u64) as u8,
            (x >> 24u64) as u8 == (y >> 24u64) as u8,
            (x >> 16u64) as u8 == (y >> 16u64) as u8,
            (x >> 8u64) as u8 == (y >> 8u64) as u8,
            x as u8 == y as u8,
    ;
}

/// Headers with different nonces have different encodings: the nonce sits at a
/// fixed place in the encoding.
pub proof fn lemma_nonce_changes_header_bytes(h1: BlockHeader, h2: BlockHeader)
    requires
        h1.nonce != h2.nonce,
    ensures
        header_bytes(h1) != header_bytes(h2),
{
    if header_bytes(h1) == header_bytes(h2) {
        assert(header_bytes(h1).subrange(80, 88) =~= be_u64(h1.nonce));
        assert(header_bytes(h2).subrange(80, 88) =~= be_u64(h2.nonce));
        lemma_be_u64_injective(h1.nonce, h2.nonce);
    }
}

/// A mined block whose nonce is altered while its stored digest is kept passes
/// the digest check of `validate` only if double SHA-256 maps two different
/// encodings to the same digest.
pub proof fn lemma_altered_nonce_needs_collision(mined: Block, altered: Block)
    requires
        hash_matches(mined),
        altered.hash == mined.hash,
        altered.header.nonce != mined.header.nonce,
        hash_matches(altered),
    ensures
        header_bytes(altered.header) != header_bytes(mined.header),
        double_sha256(header_bytes(altered.header)) == double_sha256(header_bytes(mined.header)),
{
    lemma_nonce_changes_header_bytes(altered.header, mined.header);
}

} // verus!
