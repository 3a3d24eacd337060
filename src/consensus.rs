//! The consensus engine: the chain, the pool of pending transactions, the set of
//! unspent outputs, and the mining, difficulty and reward policy.
use vstd::prelude::*;
use crate::block::{Block, hash_matches, merkle_matches, meets_target, signatures_hold, tx_ids};
use crate::crypto::{hash, hash_to_hex, hashes_equal, sha256_of};
use crate::encoding::{be_u32, put_hash, put_u32};
use crate::transaction::{
    Transaction,
    TransactionInput,
    TransactionOutput,
    TransactionType,
    now_millis,
    signature_valid,
};
use vstd::arithmetic::div_mod::{
    lemma_fundamental_div_mod,
    lemma_hoist_over_denominator,
    lemma_div_by_multiple,
    lemma_div_denominator,
};

verus! {

/// Policy of the engine, fixed at construction.
#[derive(Debug, Clone, Copy)]
pub struct ConsensusParams {
    /// Target time between blocks, in milliseconds.
    pub target_block_time: u64,
    /// Number of blocks between difficulty adjustments.
    pub difficulty_adjustment_interval: u64,
    pub initial_difficulty: u32,
    /// Largest factor by which one adjustment may raise or lower the difficulty.
    pub max_difficulty_change: u64,
    /// Reward of a block before any halving.
    pub block_reward: u64,
    /// Number of blocks between halvings of the reward.
    pub halving_interval: u64,
}

impl ConsensusParams {
    /// Intervals and the target time are positive; the change bound is at least one.
    pub open spec fn wf(&self) -> bool {
        &&& self.target_block_time > 0
        &&& self.difficulty_adjustment_interval > 0
        &&& self.max_difficulty_change >= 1
        &&& self.halving_interval > 0
    }
}

impl Default for ConsensusParams {
    /// Two-minute blocks, adjustment every 144 blocks by at most four times,
    /// difficulty 4, a reward of 50 coins of 10^8 units halved every 210,000 blocks.
    fn default() -> (r: Self)
        ensures
            r.target_block_time == 120_000,
            r.difficulty_adjustment_interval == 144,
            r.initial_difficulty == 4,
            r.max_difficulty_change == 4,
            r.block_reward == 5_000_000_000,
            r.halving_interval == 210_000,
    {
        ConsensusParams {
            target_block_time: 120_000,
            difficulty_adjustment_interval: 144,
            initial_difficulty: 4,
            max_difficulty_change: 4,
            block_reward: 5_000_000_000,
            halving_interval: 210_000,
        }
    }
}

/// The reward of the block at `height`: the base reward halved once per elapsed
/// halving interval, and nothing after 64 halvings.
pub open spec fn reward_at(p: ConsensusParams, height: u64) -> u64 {
    let halvings = height / p.halving_interval;
    if halvings >= 64 {
        0
    } else {
        p.block_reward >> halvings
    }
}

/// The difficulty scaled by the ratio of target to measured time, the ratio held
/// within `[1/m, m]`, rounded down.
pub open spec fn scaled_difficulty(cur: int, actual: int, target: int, m: int) -> int {
    if actual <= 0 {
        if actual == 0 {
            cur * m
        } else {
            cur / m
        }
    } else if target > m * actual {
        cur * m
    } else if target * m < actual {
        cur / m
    } else {
        (cur * target) / actual
    }
}

/// A difficulty held within `[1, 32]`.
pub open spec fn clamp_difficulty(x: int) -> int {
    if x < 1 {
        1
    } else if x > 32 {
        32
    } else {
        x
    }
}

/// The difficulty after an adjustment.
pub open spec fn retarget_spec(cur: int, actual: int, target: int, m: int) -> int {
    clamp_difficulty(scaled_difficulty(cur, actual, target, m))
}

/// The new difficulty, from the current one, the measured time of the last
/// adjustment window (negative when the clock went back), the target time of
/// that window, and the bound on the change.
pub fn retarget(current: u32, actual: i128, target: u128, max_change: u64) -> (r: u32)
    requires
        target > 0,
        max_change >= 1,
        -0x1_0000_0000_0000_0000 <= actual <= 0x1_0000_0000_0000_0000,
    ensures
        r == retarget_spec(current as int, actual as int, target as int, max_change as int),
{
    let cur = current as u128;
    let m = max_change as u128;
    assert(cur * m <= 0xffff_ffff * 0xffff_ffff_ffff_ffff) by (nonlinear_arith)
        requires
            cur <= 0xffff_ffff,
            m <= 0xffff_ffff_ffff_ffff,
    ;
    let raw: u128 = if actual <= 0 {
        if actual == 0 {
            cur * m
        } else {
            cur / m
        }
    } else {
        let a = actual as u128;
        assert(m * a <= 0xffff_ffff_ffff_ffff * 0x1_0000_0000_0000_0000) by (nonlinear_arith)
            requires
                a <= 0x1_0000_0000_0000_0000,
                m <= 0xffff_ffff_ffff_ffff,
        ;
        let lowers: bool = if target < 0x1_0000_0000_0000_0000 {
            assert(target * m < 0x1_0000_0000_0000_0000 * 0x1_0000_0000_0000_0000) by (nonlinear_arith)
                requires
                    target < 0x1_0000_0000_0000_0000,
                    m <= 0xffff_ffff_ffff_ffff,
            ;
            target * m < a
        } else {
            assert(target * m >= a) by (nonlinear_arith)
                requires
                    target >= 0x1_0000_0000_0000_0000,
                    m >= 1,
                    a <= 0x1_0000_0000_0000_0000,
            ;
            false
        };
        assert(lowers == (target * m < a));
        if target > m * a {
            cur * m
        } else if lowers {
            cur / m
        } else {
            let q = target / a;
            let rem = target % a;
            proof {
                lemma_fundamental_div_mod(target as int, a as int);
                assert(q <= m) by (nonlinear_arith)
                    requires
                        target <= m * a,
                        q == target / a,
                        a > 0,
                ;
                assert(cur * q <= 0xffff_ffff * 0xffff_ffff_ffff_ffff) by (nonlinear_arith)
                    requires
                        cur <= 0xffff_ffff,
                        q <= m,
                        m <= 0xffff_ffff_ffff_ffff,
                ;
                assert(cur * rem <= 0xffff_ffff * 0x1_0000_0000_0000_0000) by (nonlinear_arith)
                    requires
                        cur <= 0xffff_ffff,
                        rem < a,
                        a <= 0x1_0000_0000_0000_0000,
                ;
                assert(cur * target == cur * rem + (cur * q) * a) by (nonlinear_arith)
                    requires
                        target == a * q + rem,
                ;
                lemma_hoist_over_denominator((cur * rem) as int, (cur * q) as int, a as nat);
            }
            cur * q + (cur * rem) / a
        }
    };
    if raw < 1 {
        1
    } else if raw > 32 {
        32
    } else {
        raw as u32
    }
}


/// The block at the first halving height earns half the base reward, and the
/// block at 64 halving intervals earns nothing.
pub proof fn lemma_reward_halving(p: ConsensusParams)
    requires
        p.wf(),
        p.halving_interval * 64 <= 0xffff_ffff_ffff_ffff,
    ensures
        reward_at(p, p.halving_interval) == p.block_reward / 2,
        reward_at(p, (p.halving_interval * 64) as u64) == 0,
{
    let hi = p.halving_interval;
    lemma_div_by_multiple(1, hi as int);
    lemma_div_by_multiple(64, hi as int);
    assert(hi / hi == 1);
    assert(((hi * 64) as u64) / hi == 64);
    let r = p.block_reward;
    assert(r >> 1u64 == r / 2) by (bit_vector);
}

/// When the measured window took twice the target time, the difficulty is halved
/// (rounded down), unless the change bound is below two, and then held within
/// `[1, 32]`.
pub proof fn lemma_retarget_twice_slower(cur: u32, target: u64, m: u64)
    requires
        target > 0,
        m >= 1,
    ensures
        retarget_spec(cur as int, 2 * target, target as int, m as int) == clamp_difficulty(
            if m >= 2 {
                cur as int / 2
            } else {
                cur as int
            },
        ),
{
    let t = target as int;
    let c = cur as int;
    if m >= 2 {
        assert(!(t > m * (2 * t))) by (nonlinear_arith)
            requires
                t > 0,
                m >= 2,
        ;
        assert(!(t * m < 2 * t)) by (nonlinear_arith)
            requires
                t > 0,
                m >= 2,
        ;
        lemma_div_by_multiple(c, t);
        lemma_div_denominator(c * t, t, 2);
        assert(c * t == t * c) by (nonlinear_arith);
        assert((c * t) / (2 * t) == c / 2) by (nonlinear_arith)
            requires
                (c * t) / t == c,
                ((c * t) / t) / 2 == (c * t) / (t * 2),
        ;
    } else {
        assert(m == 1);
        assert(t * 1 < 2 * t);
    }
}

/// The spending-key of an output: the digest of the transaction identifier
/// followed by the output's big-endian index.
pub open spec fn outpoint_key(txid: Seq<u8>, index: u32) -> Seq<u8> {
    sha256_of(txid + be_u32(index))
}

/// An unspent output and the key it is spent by.
#[derive(Debug)]
pub struct UtxoEntry {
    pub key: crate::crypto::Hash,
    pub output: TransactionOutput,
}

/// What an unspent output is to the ledger: its key, its value and its owner.
pub type UtxoView = (Seq<u8>, u64, Seq<char>);

/// An entry as the ledger sees it.
pub open spec fn entry_view(e: UtxoEntry) -> UtxoView {
    (e.key@, e.output.value, e.output.address@)
}

/// The entries as the ledger sees them.
pub open spec fn utxo_view(s: Seq<UtxoEntry>) -> Seq<UtxoView> {
    s.map_values(|e: UtxoEntry| entry_view(e))
}

/// The set without the output of the given key.
pub open spec fn without_key(s: Seq<UtxoView>, key: Seq<u8>) -> Seq<UtxoView> {
    s.filter(|e: UtxoView| e.0 != key)
}

/// The set with the output of the given key replaced or added.
pub open spec fn with_entry(s: Seq<UtxoView>, key: Seq<u8>, value: u64, owner: Seq<char>) -> Seq<
    UtxoView,
> {
    without_key(s, key).push((key, value, owner))
}

/// Whether an output of the given key is unspent.
pub open spec fn has_key(s: Seq<UtxoView>, key: Seq<u8>) -> bool {
    exists|i: int| 0 <= i < s.len() && (#[trigger] s[i]).0 == key
}

/// The set after the inputs are spent, in order.
pub open spec fn spend_inputs(s: Seq<UtxoView>, inputs: Seq<TransactionInput>) -> Seq<UtxoView>
    decreases inputs.len(),
{
    if inputs.len() == 0 {
        s
    } else {
        let i = inputs.last();
        without_key(
            spend_inputs(s, inputs.drop_last()),
            outpoint_key(i.previous_output@, i.output_index),
        )
    }
}

/// The set after the outputs of a transaction are added, in order.
pub open spec fn add_outputs(s: Seq<UtxoView>, txid: Seq<u8>, outputs: Seq<TransactionOutput>) -> Seq<
    UtxoView,
>
    decreases outputs.len(),
{
    if outputs.len() == 0 {
        s
    } else {
        let o = outputs.last();
        with_entry(
            add_outputs(s, txid, outputs.drop_last()),
            outpoint_key(txid, (outputs.len() - 1) as u32),
            o.value,
            o.address@,
        )
    }
}

/// The effect of one transaction: a transfer spends its inputs and adds its
/// outputs; the other kinds leave the set as it is.
pub open spec fn apply_tx(s: Seq<UtxoView>, tx: Transaction) -> Seq<UtxoView> {
    match tx.transaction_type {
        TransactionType::Transfer { inputs, outputs } => add_outputs(
            spend_inputs(s, inputs@),
            tx.id@,
            outputs@,
        ),
        _ => s,
    }
}

/// The effect of a list of transactions, in order.
pub open spec fn apply_txs(s: Seq<UtxoView>, txs: Seq<Transaction>) -> Seq<UtxoView>
    decreases txs.len(),
{
    if txs.len() == 0 {
        s
    } else {
        apply_tx(apply_txs(s, txs.drop_last()), txs.last())
    }
}

/// The sum of the values owned by `owner`.
pub open spec fn balance_of(s: Seq<UtxoView>, owner: Seq<char>) -> int
    decreases s.len(),
{
    if s.len() == 0 {
        0
    } else {
        balance_of(s.drop_last(), owner) + if s.last().2 == owner {
            s.last().1 as int
        } else {
            0
        }
    }
}

/// The sum of all values.
pub open spec fn supply_of(s: Seq<UtxoView>) -> int
    decreases s.len(),
{
    if s.len() == 0 {
        0
    } else {
        supply_of(s.drop_last()) + s.last().1
    }
}

/// A sum held at the largest `u64`.
pub open spec fn saturate(x: int) -> u64 {
    if x > 0xffff_ffff_ffff_ffff {
        0xffff_ffff_ffff_ffffu64
    } else {
        x as u64
    }
}


/// Running statistics of the miner, updated after each block.
#[derive(Debug, Clone, Copy)]
pub struct MiningStats {
    pub blocks_mined: u64,
    pub total_hash_rate: u64,
    pub current_difficulty: u32,
    /// Timestamp of the last block, in milliseconds since the Unix epoch.
    pub last_block_time: i64,
    /// Moving average of the time taken to mine a block, in milliseconds.
    pub average_block_time: u64,
}

/// The engine: policy, chain, pending pool, statistics and unspent outputs.
#[derive(Debug)]
pub struct ConsensusEngine {
    pub params: ConsensusParams,
    pub chain: Vec<Block>,
    pub pending_transactions: Vec<Transaction>,
    pub mining_stats: MiningStats,
    pub utxo_set: Vec<UtxoEntry>,
}

/// A summary of the engine's state.
#[derive(Debug)]
pub struct BlockchainInfo {
    pub chain_height: u64,
    pub best_block_hash: String,
    pub difficulty: u32,
    pub pending_transactions: usize,
    pub total_supply: u64,
    /// In whole seconds.
    pub average_block_time: i64,
}

/// The address that receives the initial supply.
pub open spec fn genesis_address() -> Seq<char> {
    seq![
        'b', 'b', '_', 'g', 'e', 'n', 'e', 's', 'i', 's', '_', 'a', 'd', 'd', 'r', 'e', 's', 's',
    ]
}

/// The initial supply: 21 million coins of 10^8 units.
pub const GENESIS_SUPPLY: u64 = 2_100_000_000_000_000;

/// Most pending transactions that one block takes.
pub const MAX_BLOCK_TRANSACTIONS: usize = 1000;

/// The difficulty that the block at `height` is mined at, and the engine's
/// difficulty after it is computed: unchanged unless `height` is a multiple of the
/// adjustment interval and the chain holds at least that many blocks; else
/// adjusted from the time between the tip and the block one interval back.
pub open spec fn difficulty_for(e: ConsensusEngine, height: u64) -> u32 {
    let n = e.chain@.len();
    let k = e.params.difficulty_adjustment_interval;
    if height % k != 0 || n < k {
        e.mining_stats.current_difficulty
    } else {
        retarget_spec(
            e.mining_stats.current_difficulty as int,
            e.chain@[n - 1].header.timestamp - e.chain@[n - k].header.timestamp,
            k * e.params.target_block_time,
            e.params.max_difficulty_change as int,
        ) as u32
    }
}

/// The identifiers of a list that are not among `ids`, in order.
pub open spec fn without_ids(txs: Seq<Seq<u8>>, ids: Seq<Seq<u8>>) -> Seq<Seq<u8>> {
    txs.filter(|id: Seq<u8>| !ids.contains(id))
}

/// Whether `tx` is the reward transaction: a transfer with no inputs and one output
/// of `value` to `owner`.
pub open spec fn is_reward(tx: Transaction, value: u64, owner: Seq<char>) -> bool {
    match tx.transaction_type {
        TransactionType::Transfer { inputs, outputs } => {
            &&& inputs@.len() == 0
            &&& outputs@.len() == 1
            &&& outputs@[0].value == value
            &&& outputs@[0].address@ == owner
        },
        _ => false,
    }
}

/// Identifiers of the pending transactions that the next block takes.
pub open spec fn selected_ids(pending: Seq<Transaction>) -> Seq<Seq<u8>> {
    tx_ids(pending).take(
        if pending.len() < MAX_BLOCK_TRANSACTIONS {
            pending.len() as int
        } else {
            MAX_BLOCK_TRANSACTIONS as int
        },
    )
}

/// The spending-key of an output.
pub fn outpoint(txid: &crate::crypto::Hash, index: u32) -> (r: crate::crypto::Hash)
    ensures
        r@ == outpoint_key(txid@, index),
{
    let mut bytes: Vec<u8> = Vec::new();
    put_hash(&mut bytes, txid);
    put_u32(&mut bytes, index);
    hash(bytes.as_slice())
}

impl UtxoEntry {
    fn duplicate(&self) -> (r: UtxoEntry)
        ensures
            entry_view(r) == entry_view(*self),
    {
        UtxoEntry { key: self.key, output: self.output.clone() }
    }
}

impl ConsensusEngine {
    /// The unspent outputs as the ledger sees them.
    pub open spec fn utxo(&self) -> Seq<UtxoView> {
        utxo_view(self.utxo_set@)
    }

    /// Policy is well formed, the chain is not empty, each block's height is its
    /// position, the mined-block count is the chain's length, the unspent outputs
    /// are what the chain's transactions leave when applied in order to an empty
    /// set, every block of the chain passes validation, and every pending
    /// transaction carries a valid signature.
    pub open spec fn wf(&self) -> bool {
        &&& self.params.wf()
        &&& self.chain@.len() >= 1
        &&& forall|i: int|
            0 <= i < self.chain@.len() ==> (#[trigger] self.chain@[i]).header.block_height == i
        &&& self.mining_stats.blocks_mined == self.chain@.len()
        &&& self.utxo() == apply_txs(Seq::empty(), chain_txs(self.chain@))
        &&& forall|i: int|
            0 <= i < self.chain@.len() ==> block_valid(#[trigger] self.chain@[i])
        &&& forall|i: int|
            0 <= i < self.pending_transactions@.len() ==> signature_valid(
                #[trigger] self.pending_transactions@[i],
            )
    }

    /// The reward of the block at `height`, halved once per halving interval and
    /// nothing after 64 halvings.
    pub fn calculate_block_reward(&self, block_height: u64) -> (r: u64)
        requires
            self.params.wf(),
        ensures
            r == reward_at(self.params, block_height),
    {
        let halvings = block_height / self.params.halving_interval;
        if halvings >= 64 {
            return 0;
        }
        self.params.block_reward >> halvings
    }

    /// The difficulty for the block at `block_height`, recorded as the current one.
    pub fn calculate_difficulty(&mut self, block_height: u64) -> (r: u32)
        requires
            old(self).wf(),
        ensures
            r == difficulty_for(*old(self), block_height),
            final(self).wf(),
            final(self).mining_stats.current_difficulty == r,
            final(self).params == old(self).params,
            final(self).chain == old(self).chain,
            final(self).pending_transactions == old(self).pending_transactions,
            final(self).utxo_set == old(self).utxo_set,
            final(self).mining_stats.blocks_mined == old(self).mining_stats.blocks_mined,
            final(self).mining_stats.last_block_time == old(self).mining_stats.last_block_time,
            final(self).mining_stats.average_block_time == old(
                self,
            ).mining_stats.average_block_time,
    {
        let k = self.params.difficulty_adjustment_interval;
        if block_height % k != 0 {
            return self.mining_stats.current_difficulty;
        }
        let n = self.chain.len();
        if (n as u64) < k {
            return self.mining_stats.current_difficulty;
        }
        let recent = self.chain[n - 1].header.timestamp;
        let earlier = self.chain[n - k as usize].header.timestamp;
        let actual: i128 = recent as i128 - earlier as i128;
        assert(k * self.params.target_block_time <= 0xffff_ffff_ffff_ffff * 0xffff_ffff_ffff_ffff)
            by (nonlinear_arith)
            requires
                k <= 0xffff_ffff_ffff_ffff,
                self.params.target_block_time <= 0xffff_ffff_ffff_ffff,
        ;
        let target: u128 = k as u128 * self.params.target_block_time as u128;
        assert(k * self.params.target_block_time > 0) by (nonlinear_arith)
            requires
                k > 0,
                self.params.target_block_time > 0,
        ;
        let d = retarget(
            self.mining_stats.current_difficulty,
            actual,
            target,
            self.params.max_difficulty_change,
        );
        self.mining_stats.current_difficulty = d;
        d
    }

    /// Whether an output of the given key is unspent.
    fn contains_key(&self, key: &crate::crypto::Hash) -> (r: bool)
        ensures
            r == has_key(self.utxo(), key@),
    {
        let mut i: usize = 0;
        while i < self.utxo_set.len()
            invariant
                i <= self.utxo_set@.len(),
                forall|j: int| 0 <= j < i ==> (#[trigger] self.utxo_set@[j]).key@ != key@,
            decreases self.utxo_set@.len() - i,
        {
            if hashes_equal(&self.utxo_set[i].key, key) {
                assert(self.utxo()[i as int].0 == key@);
                return true;
            }
            i = i + 1;
        }
        assert forall|j: int| 0 <= j < self.utxo().len() implies (#[trigger] self.utxo()[j]).0
            != key@ by {
            assert(self.utxo()[j] == entry_view(self.utxo_set@[j]));
        }
        false
    }

    /// Removes the output of the given key.
    fn remove_key(&mut self, key: &crate::crypto::Hash)
        ensures
            final(self).utxo() == without_key(old(self).utxo(), key@),
            final(self).params == old(self).params,
            final(self).chain == old(self).chain,
            final(self).pending_transactions == old(self).pending_transactions,
            final(self).mining_stats == old(self).mining_stats,
    {
        let ghost v = self.utxo();
        let ghost pred = |e: UtxoView| e.0 != key@;
        let mut kept: Vec<UtxoEntry> = Vec::new();
        let mut i: usize = 0;
        while i < self.utxo_set.len()
            invariant
                i <= self.utxo_set@.len(),
                v == self.utxo(),
                pred == (|e: UtxoView| e.0 != key@),
                utxo_view(kept@) == v.subrange(0, i as int).filter(pred),
            decreases self.utxo_set@.len() - i,
        {
            assert(v.subrange(0, i + 1).drop_last() =~= v.subrange(0, i as int));
            assert(v.subrange(0, i + 1).last() == v[i as int]);
            assert(v[i as int] == entry_view(self.utxo_set@[i as int]));
            reveal(Seq::filter);
            assert(v.subrange(0, i + 1).filter(pred) == (if pred(v[i as int]) {
                v.subrange(0, i as int).filter(pred).push(v[i as int])
            } else {
                v.subrange(0, i as int).filter(pred)
            }));
            if !hashes_equal(&self.utxo_set[i].key, key) {
                let e = self.utxo_set[i].duplicate();
                kept.push(e);
                assert(utxo_view(kept@) =~= v.subrange(0, i as int).filter(pred).push(
                    v[i as int],
                ));
            }
            i = i + 1;
        }
        assert(v.subrange(0, v.len() as int) =~= v);
        self.utxo_set = kept;
    }

    /// Adds an output under the given key, replacing any output of that key.
    fn insert_entry(&mut self, key: crate::crypto::Hash, output: TransactionOutput)
        ensures
            final(self).utxo() == with_entry(old(self).utxo(), key@, output.value, output.address@),
            final(self).params == old(self).params,
            final(self).chain == old(self).chain,
            final(self).pending_transactions == old(self).pending_transactions,
            final(self).mining_stats == old(self).mining_stats,
    {
        self.remove_key(&key);
        let ghost before = self.utxo_set@;
        self.utxo_set.push(UtxoEntry { key, output });
        assert(self.utxo() =~= utxo_view(before).push((key@, output.value, output.address@)));
    }

    /// The sum of the unspent values owned by `address`, held at `u64::MAX`.
    pub fn get_balance(&self, address: &str) -> (r: u64)
        ensures
            r == saturate(balance_of(self.utxo(), address@)),
    {
        let ghost v = self.utxo();
        let owner = address.to_owned();
        let n = self.utxo_set.len();
        let mut total: u128 = 0;
        let mut i: usize = 0;
        while i < n
            invariant
                i <= self.utxo_set@.len(),
                v == self.utxo(),
                total == balance_of(v.subrange(0, i as int), address@),
                owner@ == address@,
                n == self.utxo_set@.len(),
                total <= i * 0xffff_ffff_ffff_ffff,
            decreases self.utxo_set@.len() - i,
        {
            assert(v.subrange(0, i + 1).drop_last() =~= v.subrange(0, i as int));
            assert(v.subrange(0, i + 1).last() == v[i as int]);
            assert(v[i as int] == entry_view(self.utxo_set@[i as int]));
            let out = &self.utxo_set[i].output;
            if out.address == owner {
                total = total + out.value as u128;
            }
            i = i + 1;
        }
        assert(v.subrange(0, v.len() as int) =~= v);
        if total > 0xffff_ffff_ffff_ffff {
            0xffff_ffff_ffff_ffff
        } else {
            total as u64
        }
    }
}


/// Whether a transaction of the given identifier is in the list.
fn contains_id(txs: &Vec<Transaction>, id: &crate::crypto::Hash) -> (r: bool)
    ensures
        r == tx_ids(txs@).contains(id@),
{
    let mut i: usize = 0;
    while i < txs.len()
        invariant
            i <= txs@.len(),
            forall|j: int| 0 <= j < i ==> (#[trigger] txs@[j]).id@ != id@,
        decreases txs@.len() - i,
    {
        if hashes_equal(&txs[i].id, id) {
            assert(tx_ids(txs@)[i as int] == id@);
            return true;
        }
        i = i + 1;
    }
    assert forall|j: int| 0 <= j < tx_ids(txs@).len() implies tx_ids(txs@)[j] != id@ by {
        assert(tx_ids(txs@)[j] == txs@[j].id@);
    }
    false
}

impl ConsensusEngine {
    /// Applies one transaction to the unspent outputs.
    fn apply_transaction(&mut self, tx: &Transaction)
        ensures
            final(self).utxo() == apply_tx(old(self).utxo(), *tx),
            final(self).params == old(self).params,
            final(self).chain == old(self).chain,
            final(self).pending_transactions == old(self).pending_transactions,
            final(self).mining_stats == old(self).mining_stats,
    {
        match &tx.transaction_type {
            TransactionType::Transfer { inputs, outputs } => {
                let ghost start = self.utxo();
                let mut j: usize = 0;
                while j < inputs.len()
                    invariant
                        j <= inputs@.len(),
                        self.utxo() == spend_inputs(start, inputs@.subrange(0, j as int)),
                        self.params == old(self).params,
                        self.chain == old(self).chain,
                        self.pending_transactions == old(self).pending_transactions,
                        self.mining_stats == old(self).mining_stats,
                    decreases inputs@.len() - j,
                {
                    let key = outpoint(&inputs[j].previous_output, inputs[j].output_index);
                    self.remove_key(&key);
                    assert(inputs@.subrange(0, j + 1).drop_last() =~= inputs@.subrange(0, j as int));
                    j = j + 1;
                }
                assert(inputs@.subrange(0, inputs@.len() as int) =~= inputs@);
                let ghost mid = self.utxo();
                let mut k: usize = 0;
                while k < outputs.len()
                    invariant
                        k <= outputs@.len(),
                        self.utxo() == add_outputs(mid, tx.id@, outputs@.subrange(0, k as int)),
                        self.params == old(self).params,
                        self.chain == old(self).chain,
                        self.pending_transactions == old(self).pending_transactions,
                        self.mining_stats == old(self).mining_stats,
                    decreases outputs@.len() - k,
                {
                    let key = outpoint(&tx.id, k as u32);
                    let out = outputs[k].clone();
                    self.insert_entry(key, out);
                    assert(outputs@.subrange(0, k + 1).drop_last() =~= outputs@.subrange(
                        0,
                        k as int,
                    ));
                    k = k + 1;
                }
                assert(outputs@.subrange(0, outputs@.len() as int) =~= outputs@);
            },
            _ => {},
        }
    }

    /// Applies a list of transactions to the unspent outputs, in order.
    fn apply_transactions(&mut self, txs: &Vec<Transaction>)
        ensures
            final(self).utxo() == apply_txs(old(self).utxo(), txs@),
            final(self).params == old(self).params,
            final(self).chain == old(self).chain,
            final(self).pending_transactions == old(self).pending_transactions,
            final(self).mining_stats == old(self).mining_stats,
    {
        let mut i: usize = 0;
        while i < txs.len()
            invariant
                i <= txs@.len(),
                self.utxo() == apply_txs(old(self).utxo(), txs@.subrange(0, i as int)),
                self.params == old(self).params,
                self.chain == old(self).chain,
                self.pending_transactions == old(self).pending_transactions,
                self.mining_stats == old(self).mining_stats,
            decreases txs@.len() - i,
        {
            self.apply_transaction(&txs[i]);
            assert(txs@.subrange(0, i + 1).drop_last() =~= txs@.subrange(0, i as int));
            i = i + 1;
        }
        assert(txs@.subrange(0, txs@.len() as int) =~= txs@);
    }

    /// Drops from the pool every transaction whose identifier is in `mined`,
    /// keeping the others in order.
    fn remove_mined(&mut self, mined: &Vec<Transaction>)
        ensures
            final(self).pending_transactions@ == old(self).pending_transactions@.filter(
                not_mined(tx_ids(mined@)),
            ),
            final(self).params == old(self).params,
            final(self).chain == old(self).chain,
            final(self).utxo_set == old(self).utxo_set,
            final(self).mining_stats == old(self).mining_stats,
    {
        let ghost p = not_mined(tx_ids(mined@));
        let ghost pool = self.pending_transactions@;
        let mut i: usize = 0;
        let ghost mut j: int = 0;
        while i < self.pending_transactions.len()
            invariant
                0 <= j <= pool.len(),
                i <= self.pending_transactions@.len(),
                p == not_mined(tx_ids(mined@)),
                pool == old(self).pending_transactions@,
                self.pending_transactions@.subrange(0, i as int) == pool.subrange(0, j).filter(p),
                self.pending_transactions@.len() - i == pool.len() - j,
                forall|k: int|
                    0 <= k < self.pending_transactions@.len() - i ==> #[trigger] self.pending_transactions@[i
                        + k] == pool[j + k],
                self.params == old(self).params,
                self.chain == old(self).chain,
                self.utxo_set == old(self).utxo_set,
                self.mining_stats == old(self).mining_stats,
            decreases self.pending_transactions@.len() - i,
        {
            let ghost cur = self.pending_transactions@;
            assert(j < pool.len());
            assert(cur[i + 0] == pool[j + 0]);
            assert(pool[j] == cur[i as int]);
            assert(pool.subrange(0, j + 1).drop_last() =~= pool.subrange(0, j));
            assert(pool.subrange(0, j + 1).last() == pool[j]);
            reveal(Seq::filter);
            if contains_id(mined, &self.pending_transactions[i].id) {
                let _ = self.pending_transactions.remove(i);
                assert(!p(pool[j]));
                assert(pool.subrange(0, j + 1).filter(p) == pool.subrange(0, j).filter(p));
                assert(self.pending_transactions@.subrange(0, i as int) =~= cur.subrange(0, i as int));
                assert forall|k: int|
                    0 <= k < self.pending_transactions@.len() - i implies #[trigger] self.pending_transactions@[i
                        + k] == pool[j + 1 + k] by {
                    assert(self.pending_transactions@[i + k] == cur[i + (k + 1)]);
                }
            } else {
                assert(p(pool[j]));
                assert(pool.subrange(0, j + 1).filter(p) == pool.subrange(0, j).filter(p).push(pool[j]));
                i = i + 1;
                assert(self.pending_transactions@.subrange(0, i as int) =~= cur.subrange(0, i - 1).push(
                    cur[i - 1],
                ));
                assert forall|k: int|
                    0 <= k < self.pending_transactions@.len() - i implies #[trigger] self.pending_transactions@[i
                        + k] == pool[j + 1 + k] by {
                    assert(cur[(i - 1) + (k + 1)] == pool[j + (k + 1)]);
                }
            }
            proof {
                j = j + 1;
            }
        }
        assert(pool.subrange(0, j) =~= pool);
        assert(self.pending_transactions@.subrange(0, i as int) =~= self.pending_transactions@);
    }
}


/// Whether every input of a transfer refers to an unspent output; true of the
/// other kinds.
pub open spec fn inputs_unspent(s: Seq<UtxoView>, tx: Transaction) -> bool {
    match tx.transaction_type {
        TransactionType::Transfer { inputs, .. } => forall|i: int|
            0 <= i < inputs@.len() ==> has_key(
                s,
                outpoint_key((#[trigger] inputs@[i]).previous_output@, inputs@[i].output_index),
            ),
        _ => true,
    }
}

/// The block-time average after one more sample, weighted nine to one.
pub open spec fn moving_average(avg: u64, sample: u64) -> int {
    (9 * avg + sample) / 10
}

/// The block-time average after one more sample, weighted nine to one.
pub fn update_average(avg: u64, sample: u64) -> (r: u64)
    ensures
        r == moving_average(avg, sample),
{
    let total: u128 = 9 * (avg as u128) + sample as u128;
    (total / 10) as u64
}

/// The transactions of the chain, block by block.
pub open spec fn chain_txs(chain: Seq<Block>) -> Seq<Transaction>
    decreases chain.len(),
{
    if chain.len() == 0 {
        Seq::empty()
    } else {
        chain_txs(chain.drop_last()) + chain.last().transactions@
    }
}

/// Applying two lists one after the other is applying their concatenation.
pub proof fn lemma_apply_txs_concat(s: Seq<UtxoView>, a: Seq<Transaction>, b: Seq<Transaction>)
    ensures
        apply_txs(s, a + b) == apply_txs(apply_txs(s, a), b),
    decreases b.len(),
{
    if b.len() == 0 {
        assert(a + b =~= a);
    } else {
        assert((a + b).drop_last() =~= a + b.drop_last());
        assert((a + b).last() == b.last());
        lemma_apply_txs_concat(s, a, b.drop_last());
    }
}

/// Whether a block passes `Block::validate`.
pub open spec fn block_valid(b: Block) -> bool {
    hash_matches(b) && merkle_matches(b) && signatures_hold(b)
}

/// Whether a transaction's identifier is not among `ids`.
pub open spec fn not_mined(ids: Seq<Seq<u8>>) -> spec_fn(Transaction) -> bool {
    |t: Transaction| !ids.contains(t.id@)
}

/// A filter keeps only items of the list: what holds of every item of the list
/// holds of every item kept.
pub proof fn lemma_filter_keeps<A>(s: Seq<A>, p: spec_fn(A) -> bool, q: spec_fn(A) -> bool)
    requires
        forall|i: int| 0 <= i < s.len() ==> q(#[trigger] s[i]),
    ensures
        forall|i: int| 0 <= i < s.filter(p).len() ==> q(#[trigger] s.filter(p)[i]),
    decreases s.len(),
{
    reveal(Seq::filter);
    if s.len() > 0 {
        let rest = s.drop_last();
        assert forall|i: int| 0 <= i < rest.len() implies q(#[trigger] rest[i]) by {
            assert(rest[i] == s[i]);
        }
        lemma_filter_keeps(rest, p, q);
        assert(q(s[s.len() - 1]));
        let kept = rest.filter(p);
        assert forall|i: int| 0 <= i < s.filter(p).len() implies q(#[trigger] s.filter(p)[i]) by {
            if p(s.last()) {
                assert(s.filter(p) == kept.push(s.last()));
                if i < kept.len() {
                    assert(s.filter(p)[i] == kept[i]);
                }
            } else {
                assert(s.filter(p) == kept);
            }
        }
    }
}

/// A filter that refuses every item leaves nothing.
pub proof fn lemma_filter_none<A>(s: Seq<A>, p: spec_fn(A) -> bool)
    requires
        forall|i: int| 0 <= i < s.len() ==> !p(#[trigger] s[i]),
    ensures
        s.filter(p) == Seq::<A>::empty(),
    decreases s.len(),
{
    reveal(Seq::filter);
    if s.len() > 0 {
        let rest = s.drop_last();
        assert forall|i: int| 0 <= i < rest.len() implies !p(#[trigger] rest[i]) by {
            assert(rest[i] == s[i]);
        }
        lemma_filter_none(rest, p);
        assert(!p(s[s.len() - 1]));
    }
}

/// Dropping the transactions whose identifiers are among `ids` drops those
/// identifiers from the list of identifiers.
pub proof fn lemma_ids_of_not_mined(s: Seq<Transaction>, ids: Seq<Seq<u8>>)
    ensures
        tx_ids(s.filter(not_mined(ids))) == without_ids(tx_ids(s), ids),
    decreases s.len(),
{
    reveal(Seq::filter);
    if s.len() > 0 {
        lemma_ids_of_not_mined(s.drop_last(), ids);
        assert(tx_ids(s).drop_last() =~= tx_ids(s.drop_last()));
        assert(tx_ids(s).last() == s.last().id@);
        let kept = s.drop_last().filter(not_mined(ids));
        assert(tx_ids(kept.push(s.last())) =~= tx_ids(kept).push(s.last().id@));
    } else {
        assert(tx_ids(s) =~= Seq::<Seq<u8>>::empty());
    }
}

/// What a successful mining call did: `b` is a copy of the block appended at
/// the tip, mined over the reward and the head of the pool, and the outputs and
/// the pool follow from it.
pub open spec fn block_appended(
    before: ConsensusEngine,
    after: ConsensusEngine,
    b: Block,
    miner: Seq<char>,
) -> bool {
    let h = before.chain@.len();
    let tip = after.chain@[h as int];
    &&& after.chain@.len() == h + 1
    &&& after.chain@.subrange(0, h as int) == before.chain@
    &&& tip.header == b.header
    &&& tip.hash == b.hash
    &&& tx_ids(tip.transactions@) == tx_ids(b.transactions@)
    &&& b.header.block_height == h
    &&& b.header.previous_block_hash == before.chain@[h - 1].hash
    &&& b.header.difficulty_target == difficulty_for(before, h as u64)
    &&& block_valid(tip)
    &&& meets_target(tip.hash@, tip.header.difficulty_target)
    &&& tip.transactions@.len() >= 1
    &&& is_reward(tip.transactions@[0], reward_at(before.params, h as u64), miner)
    &&& tx_ids(tip.transactions@).subrange(1, tip.transactions@.len() as int) == selected_ids(
        before.pending_transactions@,
    )
    &&& after.utxo() == apply_txs(before.utxo(), tip.transactions@)
    &&& tx_ids(after.pending_transactions@) == without_ids(
        tx_ids(before.pending_transactions@),
        tx_ids(tip.transactions@),
    )
    &&& after.mining_stats.current_difficulty == b.header.difficulty_target
    &&& after.mining_stats.last_block_time == b.header.timestamp
    &&& exists|sample: u64|
        after.mining_stats.average_block_time == moving_average(
            before.mining_stats.average_block_time,
            sample,
        )
}

impl ConsensusEngine {
    /// Admits a transaction to the pool. Refused, with the pool unchanged, when its
    /// signature does not verify or when a transfer refers to an output that is not
    /// unspent.
    pub fn add_transaction(&mut self, transaction: Transaction) -> (r: Result<(), String>)
        ensures
            old(self).wf() ==> final(self).wf(),
            final(self).params == old(self).params,
            final(self).chain == old(self).chain,
            final(self).utxo_set == old(self).utxo_set,
            final(self).mining_stats == old(self).mining_stats,
            r is Ok ==> final(self).pending_transactions@ == old(
                self,
            ).pending_transactions@.push(transaction),
            r is Ok <==> signature_valid(transaction) && inputs_unspent(old(self).utxo(), transaction),
            r is Err ==> final(self).pending_transactions == old(self).pending_transactions,
    {
        if !transaction.verify_signature() {
            return Err("Invalid transaction signature".to_owned());
        }
        match &transaction.transaction_type {
            TransactionType::Transfer { inputs, .. } => {
                let mut i: usize = 0;
                while i < inputs.len()
                    invariant
                        i <= inputs@.len(),
                        transaction.transaction_type matches TransactionType::Transfer {
                            inputs: ins,
                            ..
                        } && ins@ == inputs@,
                        forall|j: int|
                            0 <= j < i ==> has_key(
                                self.utxo(),
                                outpoint_key(
                                    (#[trigger] inputs@[j]).previous_output@,
                                    inputs@[j].output_index,
                                ),
                            ),
                    decreases inputs@.len() - i,
                {
                    let key = outpoint(&inputs[i].previous_output, inputs[i].output_index);
                    if !self.contains_key(&key) {
                        assert(!has_key(
                            self.utxo(),
                            outpoint_key(inputs@[i as int].previous_output@, inputs@[i as int].output_index),
                        ));
                        assert(!inputs_unspent(self.utxo(), transaction));
                        return Err("Referenced output does not exist or already spent".to_owned());
                    }
                    i = i + 1;
                }
            },
            _ => {},
        }
        self.pending_transactions.push(transaction);
        Ok(())
    }

    /// The sum of all unspent values, held at `u64::MAX`.
    fn calculate_total_supply(&self) -> (r: u64)
        ensures
            r == saturate(supply_of(self.utxo())),
    {
        let ghost v = self.utxo();
        let n = self.utxo_set.len();
        let mut total: u128 = 0;
        let mut i: usize = 0;
        while i < n
            invariant
                i <= n,
                n == self.utxo_set@.len(),
                v == self.utxo(),
                total == supply_of(v.subrange(0, i as int)),
                total <= i * 0xffff_ffff_ffff_ffff,
            decreases n - i,
        {
            assert(v.subrange(0, i + 1).drop_last() =~= v.subrange(0, i as int));
            assert(v.subrange(0, i + 1).last() == v[i as int]);
            assert(v[i as int] == entry_view(self.utxo_set@[i as int]));
            total = total + self.utxo_set[i].output.value as u128;
            i = i + 1;
        }
        assert(v.subrange(0, v.len() as int) =~= v);
        if total > 0xffff_ffff_ffff_ffff {
            0xffff_ffff_ffff_ffff
        } else {
            total as u64
        }
    }

    /// A summary: height, tip digest in hexadecimal, difficulty, pool size, total
    /// unspent value and the average block time in seconds.
    pub fn get_info(&self) -> (r: BlockchainInfo)
        ensures
            r.chain_height == self.chain@.len(),
            self.chain@.len() > 0 ==> r.best_block_hash@ == crate::crypto::hex_of(
                self.chain@.last().hash@,
            ),
            self.chain@.len() == 0 ==> r.best_block_hash@.len() == 0,
            r.difficulty == self.mining_stats.current_difficulty,
            r.pending_transactions == self.pending_transactions@.len(),
            r.total_supply == saturate(supply_of(self.utxo())),
            r.average_block_time == self.mining_stats.average_block_time / 1000,
    {
        let n = self.chain.len();
        let best_block_hash = if n > 0 {
            hash_to_hex(&self.chain[n - 1].hash)
        } else {
            String::new()
        };
        BlockchainInfo {
            chain_height: n as u64,
            best_block_hash,
            difficulty: self.mining_stats.current_difficulty,
            pending_transactions: self.pending_transactions.len(),
            total_supply: self.calculate_total_supply(),
            average_block_time: (self.mining_stats.average_block_time / 1000) as i64,
        }
    }

    /// Every transaction of the chain, block by block, then those of the pool.
    pub fn get_all_transactions(&self) -> (r: Vec<&Transaction>)
        ensures
            r@.len() == chain_txs(self.chain@).len() + self.pending_transactions@.len(),
            forall|i: int|
                0 <= i < r@.len() ==> *(#[trigger] r@[i]) == (chain_txs(self.chain@)
                    + self.pending_transactions@)[i],
    {
        let mut all: Vec<&Transaction> = Vec::new();
        let mut b: usize = 0;
        while b < self.chain.len()
            invariant
                b <= self.chain@.len(),
                all@.len() == chain_txs(self.chain@.subrange(0, b as int)).len(),
                forall|i: int|
                    0 <= i < all@.len() ==> *(#[trigger] all@[i]) == chain_txs(
                        self.chain@.subrange(0, b as int),
                    )[i],
            decreases self.chain@.len() - b,
        {
            let ghost prefix = chain_txs(self.chain@.subrange(0, b as int));
            assert(self.chain@.subrange(0, b + 1).drop_last() =~= self.chain@.subrange(0, b as int));
            let block = &self.chain[b];
            let mut t: usize = 0;
            while t < block.transactions.len()
                invariant
                    t <= block.transactions@.len(),
                    all@.len() == prefix.len() + t,
                    forall|i: int|
                        0 <= i < all@.len() ==> *(#[trigger] all@[i]) == (prefix
                            + block.transactions@)[i],
                decreases block.transactions@.len() - t,
            {
                all.push(&block.transactions[t]);
                t = t + 1;
            }
            b = b + 1;
        }
        assert(self.chain@.subrange(0, self.chain@.len() as int) =~= self.chain@);
        let ghost base = chain_txs(self.chain@);
        let mut p: usize = 0;
        while p < self.pending_transactions.len()
            invariant
                p <= self.pending_transactions@.len(),
                base == chain_txs(self.chain@),
                all@.len() == base.len() + p,
                forall|i: int|
                    0 <= i < all@.len() ==> *(#[trigger] all@[i]) == (base
                        + self.pending_transactions@)[i],
            decreases self.pending_transactions@.len() - p,
        {
            all.push(&self.pending_transactions[p]);
            p = p + 1;
        }
        all
    }
}


impl ConsensusEngine {
    /// An engine whose chain holds the mined genesis block: one reward-form
    /// transfer of the initial supply to the genesis address, applied to the
    /// otherwise empty set of unspent outputs.
    pub fn new(params: ConsensusParams) -> (r: Self)
        requires
            params.wf(),
        ensures
            r.wf(),
            r.params == params,
            r.chain@.len() == 1,
            r.chain@[0].header.previous_block_hash@ == crate::merkle::zero_hash(),
            r.chain@[0].header.difficulty_target == params.initial_difficulty,
            hash_matches(r.chain@[0]),
            merkle_matches(r.chain@[0]),
            r.chain@[0].transactions@.len() == 1,
            is_reward(r.chain@[0].transactions@[0], GENESIS_SUPPLY, genesis_address()),
            r.pending_transactions@.len() == 0,
            r.mining_stats.current_difficulty == params.initial_difficulty,
            r.mining_stats.average_block_time == params.target_block_time,
            r.utxo() == apply_txs(Seq::empty(), r.chain@[0].transactions@),
            balance_of(r.utxo(), genesis_address()) == GENESIS_SUPPLY,
    {
        let address = "bb_genesis_address".to_owned();
        proof {
            reveal_strlit("bb_genesis_address");
            assert(address@ =~= genesis_address());
        }
        let output = TransactionOutput { value: GENESIS_SUPPLY, script_pubkey: Vec::new(), address };
        let mut outputs: Vec<TransactionOutput> = Vec::new();
        outputs.push(output);
        let coinbase = Transaction::new(
            TransactionType::Transfer { inputs: Vec::new(), outputs },
            0,
        );
        let mut transactions: Vec<Transaction> = Vec::new();
        transactions.push(coinbase);
        let mut genesis = Block::new([0u8; 32], transactions, params.initial_difficulty, 0);
        let _ = genesis.mine();
        let now = now_millis();
        let mut engine = ConsensusEngine {
            params,
            chain: Vec::new(),
            pending_transactions: Vec::new(),
            mining_stats: MiningStats {
                blocks_mined: 0,
                total_hash_rate: 0,
                current_difficulty: params.initial_difficulty,
                last_block_time: now,
                average_block_time: params.target_block_time,
            },
            utxo_set: Vec::new(),
        };
        assert(engine.utxo() =~= Seq::empty());
        engine.apply_transactions(&genesis.transactions);
        proof {
            let txs = genesis.transactions@;
            let cb = txs[0];
            let key = outpoint_key(cb.id@, 0);
            assert(txs.len() == 1);
            assert(txs.last() == cb);
            assert(txs.drop_last() =~= Seq::<Transaction>::empty());
            assert(apply_txs(Seq::empty(), txs.drop_last()) == Seq::<UtxoView>::empty());
            assert(engine.utxo() == apply_tx(Seq::empty(), cb));
            if let TransactionType::Transfer { inputs, outputs } = cb.transaction_type {
                assert(spend_inputs(Seq::empty(), inputs@) == Seq::<UtxoView>::empty());
                assert(outputs@.drop_last() =~= Seq::<TransactionOutput>::empty());
                reveal(Seq::filter);
                assert(without_key(Seq::empty(), key) =~= Seq::<UtxoView>::empty());
                let s = seq![(key, GENESIS_SUPPLY, genesis_address())];
                assert(outputs@.len() == 1);
                assert(outputs@.last().value == GENESIS_SUPPLY);
                assert(outputs@.last().address@ == genesis_address());
                assert(add_outputs(Seq::empty(), cb.id@, outputs@.drop_last()) == Seq::<UtxoView>::empty());
                assert(engine.utxo() =~= s);
                assert(s.drop_last() =~= Seq::<UtxoView>::empty());
                assert(balance_of(s.drop_last(), genesis_address()) == 0);
                assert(balance_of(s, genesis_address()) == GENESIS_SUPPLY);
            }
        }
        engine.chain.push(genesis);
        engine.mining_stats.blocks_mined = 1;
        assert(engine.chain@.drop_last() =~= Seq::<Block>::empty());
        assert(chain_txs(engine.chain@.drop_last()) == Seq::<Transaction>::empty());
        assert(chain_txs(engine.chain@) =~= engine.chain@[0].transactions@);
        engine
    }

    /// Mines the next block over a reward to `miner_address` and at most
    /// `MAX_BLOCK_TRANSACTIONS` transactions from the head of the pool, then
    /// applies it, appends it and drops its transactions from the pool. The mined
    /// block is validated before it is applied; since the pool holds only validly
    /// signed transactions, that check always passes. Fails, leaving chain, pool and
    /// outputs unchanged, only when no nonce below `u64::MAX` meets the target.
    pub fn mine_block(&mut self, miner_address: String) -> (r: Result<Block, String>)
        requires
            old(self).wf(),
        ensures
            final(self).wf(),
            final(self).params == old(self).params,
            r is Err ==> final(self).chain == old(self).chain,
            r is Err ==> final(self).pending_transactions@ == old(self).pending_transactions@,
            r is Err ==> final(self).utxo_set == old(self).utxo_set,
            r is Err ==> exists|h: crate::block::BlockHeader|
                #![trigger crate::block::nonces_exhausted(h)]
                h.previous_block_hash == old(self).chain@.last().hash
                    && h.block_height == old(self).chain@.len()
                    && h.difficulty_target == difficulty_for(*old(self), old(self).chain@.len() as u64)
                    && crate::block::nonces_exhausted(h),
            r matches Ok(b) ==> block_appended(*old(self), *final(self), b, miner_address@),
    {
        let n = self.chain.len();
        if n == 0 {
            return Err("No genesis block found".to_owned());
        }
        let previous_block_hash = self.chain[n - 1].hash;
        let block_height = self.chain[n - 1].header.block_height + 1;
        assert(block_height == n);
        let reward = self.calculate_block_reward(block_height);
        let ghost miner = miner_address@;
        let output = TransactionOutput { value: reward, script_pubkey: Vec::new(), address: miner_address };
        let mut outputs: Vec<TransactionOutput> = Vec::new();
        outputs.push(output);
        let coinbase = Transaction::new(TransactionType::Transfer { inputs: Vec::new(), outputs }, 0);
        assert(is_reward(coinbase, reward, miner));
        let ghost reward_tx = coinbase;
        let ghost pool = self.pending_transactions@;
        let ghost start_state = *self;
        let take: usize = if self.pending_transactions.len() < MAX_BLOCK_TRANSACTIONS {
            self.pending_transactions.len()
        } else {
            MAX_BLOCK_TRANSACTIONS
        };
        let mut rest = self.pending_transactions.split_off(take);
        let mut selected: Vec<Transaction> = Vec::new();
        selected.push(coinbase);
        selected.append(&mut self.pending_transactions);
        let ghost taken = pool.subrange(0, take as int);
        assert(selected@ =~= seq![reward_tx] + taken);
        assert(pool =~= taken + rest@);
        assert(tx_ids(selected@).subrange(1, selected@.len() as int) =~= selected_ids(pool));
        assert(self.wf());
        let difficulty = self.calculate_difficulty(block_height);
        let mut new_block = Block::new(previous_block_hash, selected, difficulty, block_height);
        let start = now_millis();
        let ghost candidate = new_block.header;
        if !new_block.mine() {
            let mut back = new_block.transactions.split_off(1);
            back.append(&mut rest);
            self.pending_transactions = back;
            assert(self.pending_transactions@ =~= pool);
            assert(crate::block::nonces_exhausted(candidate));
            return Err("Failed to mine block".to_owned());
        }
        let end = now_millis();
        proof {
            assert forall|i: int|
                0 <= i < new_block.transactions@.len() && !crate::block::signature_exempt(new_block, i)
                implies signature_valid(#[trigger] new_block.transactions@[i]) by {
                assert(i >= 1);
                assert(new_block.transactions@[i] == pool[i - 1]);
            }
        }
        if !new_block.validate() {
            let mut back = new_block.transactions.split_off(1);
            back.append(&mut rest);
            self.pending_transactions = back;
            assert(self.pending_transactions@ =~= pool);
            return Err("Mined block failed validation".to_owned());
        }
        self.apply_transactions(&new_block.transactions);
        self.pending_transactions = rest;
        self.remove_mined(&new_block.transactions);
        let sample: u64 = if end > start {
            (end as i128 - start as i128) as u64
        } else {
            0
        };
        self.mining_stats.last_block_time = new_block.header.timestamp;
        self.mining_stats.average_block_time = update_average(
            self.mining_stats.average_block_time,
            sample,
        );
        let result = new_block.clone();
        self.chain.push(new_block);
        self.mining_stats.blocks_mined = self.chain.len() as u64;
        let ghost tip = self.chain@.last();
        proof {
            let ids = tx_ids(tip.transactions@);
            assert(self.chain@.subrange(0, n as int) =~= start_state.chain@);
            assert(self.chain@.drop_last() =~= start_state.chain@);
            lemma_apply_txs_concat(Seq::empty(), chain_txs(start_state.chain@), tip.transactions@);
            assert forall|i: int| 0 <= i < self.chain@.len() implies block_valid(#[trigger] self.chain@[i]) by {
                if i < n {
                    assert(self.chain@[i] == start_state.chain@[i]);
                }
            }
            let restp = pool.subrange(take as int, pool.len() as int);
            assert forall|i: int| 0 <= i < restp.len() implies signature_valid(#[trigger] restp[i]) by {
                assert(restp[i] == pool[take + i]);
            }
            lemma_filter_keeps(restp, not_mined(ids), |t: Transaction| signature_valid(t));
            lemma_ids_of_not_mined(restp, ids);
            assert(tx_ids(pool) =~= tx_ids(taken) + tx_ids(restp));
            assert forall|i: int| 0 <= i < tx_ids(taken).len() implies !(|id: Seq<u8>| !ids.contains(id))(
                #[trigger] tx_ids(taken)[i],
            ) by {
                assert(ids[i + 1] == tx_ids(taken)[i]);
            }
            lemma_filter_none(tx_ids(taken), |id: Seq<u8>| !ids.contains(id));
            Seq::filter_distributes_over_add(tx_ids(taken), tx_ids(restp), |id: Seq<u8>| !ids.contains(id));
            assert(without_ids(tx_ids(pool), ids) =~= without_ids(tx_ids(restp), ids));
        }
        Ok(result)
    }
}

} // verus!
