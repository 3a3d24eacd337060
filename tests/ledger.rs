use bbchain::block::{leading_u64, Block};
use bbchain::consensus::{
    outpoint, retarget, update_average, ConsensusEngine, ConsensusParams, GENESIS_SUPPLY,
};
use bbchain::crypto::hash;
use bbchain::transaction::{
    encode_payload, BetData, Transaction, TransactionInput, TransactionOutput, TransactionType,
};

fn keypair() -> (secp256k1::SecretKey, secp256k1::PublicKey) {
    let secp = secp256k1::Secp256k1::new();
    secp.generate_keypair(&mut rand::thread_rng())
}

fn pay(to: &str, value: u64) -> TransactionOutput {
    TransactionOutput { value, script_pubkey: vec![], address: to.to_string() }
}

fn spend(txid: [u8; 32], index: u32) -> TransactionInput {
    TransactionInput { previous_output: txid, output_index: index, script_sig: vec![], sequence: 0 }
}

fn signed_transfer(inputs: Vec<TransactionInput>, outputs: Vec<TransactionOutput>) -> Transaction {
    let (sk, pk) = keypair();
    let mut tx = Transaction::new(TransactionType::Transfer { inputs, outputs }, 0);
    tx.sign(&sk, &pk).unwrap();
    tx
}

fn bet() -> TransactionType {
    TransactionType::PlaceBet(BetData {
        market_id: "market_123".to_string(),
        outcome_index: 1,
        amount: 1000,
        odds: 2500,
    })
}

fn easy_params() -> ConsensusParams {
    ConsensusParams { initial_difficulty: 2, ..ConsensusParams::default() }
}

fn genesis_txid(engine: &ConsensusEngine) -> [u8; 32] {
    engine.chain[0].transactions[0].id
}

#[test]
fn new_transaction_is_unsigned_with_computed_id() {
    let tx = Transaction::new(bet(), 7);
    assert_eq!(tx.version, 1);
    assert_eq!(tx.fee, 7);
    assert!(tx.signature.is_none());
    assert!(tx.public_key.is_none());
    assert_eq!(tx.id, tx.calculate_hash());
    assert!(!tx.verify_signature());
}

#[test]
fn id_depends_on_fee_and_time() {
    let a = Transaction::with_timestamp(bet(), 1, 1_000);
    let b = Transaction::with_timestamp(bet(), 2, 1_000);
    let c = Transaction::with_timestamp(bet(), 1, 1_001);
    let d = Transaction::with_timestamp(bet(), 1, 1_000);
    assert_ne!(a.id, b.id);
    assert_ne!(a.id, c.id);
    assert_eq!(a.id, d.id);
}

#[test]
fn payload_encoding_is_tagged_and_big_endian() {
    let bytes = encode_payload(&bet());
    let mut expected = vec![2u8];
    expected.extend_from_slice(&10u64.to_be_bytes());
    expected.extend_from_slice(b"market_123");
    expected.extend_from_slice(&1u64.to_be_bytes());
    expected.extend_from_slice(&1000u64.to_be_bytes());
    expected.extend_from_slice(&2500u64.to_be_bytes());
    assert_eq!(bytes, expected);
}

#[test]
fn sign_then_verify_signature() {
    let (sk, pk) = keypair();
    let mut tx = Transaction::new(bet(), 0);
    let unsigned_id = tx.id;
    tx.sign(&sk, &pk).unwrap();
    assert!(tx.verify_signature());
    assert_eq!(tx.signature.as_ref().unwrap().len(), 64);
    assert_eq!(tx.public_key.as_ref().unwrap().len(), 33);
    assert_eq!(tx.id, tx.calculate_hash());
    assert_ne!(tx.id, unsigned_id);
}

#[test]
fn mutated_payload_fails_verification() {
    let (sk, pk) = keypair();
    let mut tx = Transaction::new(bet(), 0);
    tx.sign(&sk, &pk).unwrap();
    if let TransactionType::PlaceBet(b) = &mut tx.transaction_type {
        b.amount = 1001;
    }
    assert!(!tx.verify_signature());
}

#[test]
fn malformed_signature_fails_verification() {
    let (sk, pk) = keypair();
    let mut tx = Transaction::new(bet(), 0);
    tx.sign(&sk, &pk).unwrap();
    tx.signature.as_mut().unwrap().pop();
    assert!(!tx.verify_signature());
    let mut other = Transaction::new(bet(), 0);
    other.sign(&sk, &pk).unwrap();
    other.public_key = Some(vec![1, 2, 3]);
    assert!(!other.verify_signature());
}

#[test]
fn coinbase_shape() {
    let reward = Transaction::new(
        TransactionType::Transfer { inputs: vec![], outputs: vec![pay("miner", 50)] },
        0,
    );
    assert!(reward.is_coinbase());
    let spending = Transaction::new(
        TransactionType::Transfer { inputs: vec![spend([1; 32], 0)], outputs: vec![] },
        0,
    );
    assert!(!spending.is_coinbase());
    assert!(!Transaction::new(bet(), 0).is_coinbase());
}

#[test]
fn leading_bytes_read_big_endian() {
    let mut h = [0u8; 32];
    h[0] = 0x01;
    h[7] = 0x02;
    h[8] = 0xff;
    assert_eq!(leading_u64(&h), 0x0100_0000_0000_0002);
}

#[test]
fn mined_block_meets_target_and_validates() {
    let reward = Transaction::new(
        TransactionType::Transfer { inputs: vec![], outputs: vec![pay("miner", 50)] },
        0,
    );
    let mut block = Block::new([0; 32], vec![reward], 4, 0);
    assert_eq!(block.header.nonce, 0);
    assert!(block.mine());
    assert!(leading_u64(&block.hash) < u64::MAX >> 4);
    assert_eq!(block.hash, block.calculate_hash());
    assert!(block.validate());
}

#[test]
fn difficulty_above_sixteen_is_capped() {
    let mut block = Block::with_timestamp([0; 32], vec![], 40, 3, 1_700_000_000_000);
    assert!(block.mine());
    assert!(leading_u64(&block.hash) < u64::MAX >> 16);
    assert_eq!(block.header.difficulty_target, 40);
}

#[test]
fn altered_nonce_fails_validation() {
    let mut block = Block::new([0; 32], vec![], 4, 0);
    assert!(block.mine());
    assert!(block.validate());
    for byte in 0..8 {
        let mut tampered = block.clone();
        tampered.header.nonce ^= 1u64 << (8 * byte);
        assert!(!tampered.validate());
    }
}

#[test]
fn wrong_merkle_root_fails_validation() {
    let mut block = Block::new([0; 32], vec![], 4, 0);
    block.header.merkle_root = [7; 32];
    assert!(block.mine());
    assert!(!block.validate());
}

#[test]
fn unsigned_transaction_after_head_fails_validation() {
    let reward = || {
        Transaction::new(
            TransactionType::Transfer { inputs: vec![], outputs: vec![pay("miner", 50)] },
            0,
        )
    };
    let mut block = Block::new([0; 32], vec![reward(), reward()], 2, 0);
    assert!(block.mine());
    assert!(!block.validate());
}

#[test]
fn genesis_engine() {
    let engine = ConsensusEngine::new(ConsensusParams::default());
    assert_eq!(engine.chain.len(), 1);
    assert_eq!(engine.get_balance("bb_genesis_address"), GENESIS_SUPPLY);
    assert_eq!(GENESIS_SUPPLY, 21_000_000 * 100_000_000);
    let info = engine.get_info();
    assert_eq!(info.chain_height, 1);
    assert_eq!(info.difficulty, 4);
    assert_eq!(info.pending_transactions, 0);
    assert_eq!(info.total_supply, GENESIS_SUPPLY);
    assert_eq!(info.best_block_hash.len(), 64);
    assert_eq!(info.average_block_time, 120);
    assert_eq!(engine.chain[0].header.previous_block_hash, [0; 32]);
    assert!(leading_u64(&engine.chain[0].hash) < u64::MAX >> 4);
    assert_eq!(engine.get_all_transactions().len(), 1);
    assert_eq!(engine.get_balance("nobody"), 0);
}

#[test]
fn unsigned_submission_is_refused() {
    let mut engine = ConsensusEngine::new(easy_params());
    let tx = Transaction::new(bet(), 0);
    assert!(engine.add_transaction(tx).is_err());
    assert!(engine.pending_transactions.is_empty());
}

#[test]
fn missing_input_is_refused() {
    let mut engine = ConsensusEngine::new(easy_params());
    let tx = signed_transfer(vec![spend([9; 32], 0)], vec![pay("bob", 1)]);
    assert_eq!(
        engine.add_transaction(tx),
        Err("Referenced output does not exist or already spent".to_string())
    );
}

#[test]
fn signed_record_enters_pool_and_block() {
    let mut engine = ConsensusEngine::new(easy_params());
    let (sk, pk) = keypair();
    let mut tx = Transaction::new(bet(), 0);
    tx.sign(&sk, &pk).unwrap();
    let id = tx.id;
    assert!(engine.add_transaction(tx).is_ok());
    assert_eq!(engine.get_info().pending_transactions, 1);
    assert_eq!(engine.get_all_transactions().len(), 2);
    let block = engine.mine_block("miner".to_string()).unwrap();
    assert_eq!(block.transactions.len(), 2);
    assert_eq!(block.transactions[1].id, id);
    assert!(engine.pending_transactions.is_empty());
    assert_eq!(engine.get_balance("miner"), 5_000_000_000);
    assert_eq!(engine.get_info().total_supply, GENESIS_SUPPLY + 5_000_000_000);
}

#[test]
fn mined_block_extends_chain() {
    let mut engine = ConsensusEngine::new(easy_params());
    let tip = engine.chain[0].hash;
    let block = engine.mine_block("miner".to_string()).unwrap();
    assert_eq!(block.header.block_height, 1);
    assert_eq!(block.header.previous_block_hash, tip);
    assert_eq!(engine.chain.len(), 2);
    assert_eq!(engine.chain[1].hash, block.hash);
    assert!(block.validate());
    assert_eq!(engine.mining_stats.blocks_mined, 2);
    assert_eq!(engine.mining_stats.last_block_time, block.header.timestamp);
}

#[test]
fn double_spend_is_refused() {
    let mut engine = ConsensusEngine::new(easy_params());
    let genesis = genesis_txid(&engine);
    let a = signed_transfer(vec![spend(genesis, 0)], vec![pay("alice", GENESIS_SUPPLY)]);
    let a_id = a.id;
    assert!(engine.add_transaction(a).is_ok());
    engine.mine_block("miner".to_string()).unwrap();
    assert_eq!(engine.get_balance("bb_genesis_address"), 0);
    assert_eq!(engine.get_balance("alice"), GENESIS_SUPPLY);
    let key = outpoint(&a_id, 0);
    assert!(engine.utxo_set.iter().any(|e| e.key == key));
    let b = signed_transfer(vec![spend(genesis, 0)], vec![pay("bob", GENESIS_SUPPLY)]);
    assert!(engine.add_transaction(b).is_err());
    assert!(engine.pending_transactions.is_empty());
}

#[test]
fn outpoint_hashes_id_and_big_endian_index() {
    let id = [3u8; 32];
    let mut bytes = id.to_vec();
    bytes.extend_from_slice(&5u32.to_be_bytes());
    assert_eq!(outpoint(&id, 5), hash(&bytes));
}

#[test]
fn reward_halves_and_runs_out() {
    let engine = ConsensusEngine::new(easy_params());
    let r = engine.params.block_reward;
    assert_eq!(engine.calculate_block_reward(0), r);
    assert_eq!(engine.calculate_block_reward(209_999), r);
    assert_eq!(engine.calculate_block_reward(210_000), r / 2);
    assert_eq!(engine.calculate_block_reward(420_000), r / 4);
    assert_eq!(engine.calculate_block_reward(210_000 * 64), 0);
    assert_eq!(engine.calculate_block_reward(u64::MAX), 0);
}

#[test]
fn retarget_twice_slower_halves() {
    assert_eq!(retarget(8, 2 * 600_000, 600_000, 4), 4);
    assert_eq!(retarget(9, 2 * 600_000, 600_000, 4), 4);
    assert_eq!(retarget(1, 2 * 600_000, 600_000, 4), 1);
    assert_eq!(retarget(8, 2 * 600_000, 600_000, 1), 8);
}

#[test]
fn retarget_clamps_ratio_then_range() {
    // Forty times faster than target: the factor is held at four.
    assert_eq!(retarget(4, 15_000, 600_000, 4), 16);
    assert_eq!(retarget(16, 15_000, 600_000, 4), 32);
    // Ten times slower: the factor is held at a quarter.
    assert_eq!(retarget(16, 6_000_000, 600_000, 4), 4);
    assert_eq!(retarget(3, 6_000_000, 600_000, 4), 1);
    // Exactly on target: unchanged.
    assert_eq!(retarget(7, 600_000, 600_000, 4), 7);
    // A third faster: 6 * 4 / 3.
    assert_eq!(retarget(6, 450_000, 600_000, 4), 8);
    // No measured time, or a clock that went back.
    assert_eq!(retarget(5, 0, 600_000, 4), 20);
    assert_eq!(retarget(5, -10, 600_000, 4), 1);
}

#[test]
fn difficulty_adjusts_on_interval() {
    let params = ConsensusParams {
        difficulty_adjustment_interval: 2,
        initial_difficulty: 2,
        ..ConsensusParams::default()
    };
    let mut engine = ConsensusEngine::new(params);
    assert_eq!(engine.calculate_difficulty(1), 2);
    engine.mine_block("miner".to_string()).unwrap();
    // Two blocks mined within a few milliseconds against a four-minute target:
    // the factor is held at four.
    assert_eq!(engine.calculate_difficulty(3), 2);
    assert_eq!(engine.calculate_difficulty(2), 8);
    assert_eq!(engine.mining_stats.current_difficulty, 8);
}

#[test]
fn average_is_weighted_nine_to_one() {
    assert_eq!(update_average(120_000, 0), 108_000);
    assert_eq!(update_average(100, 200), 110);
    assert_eq!(update_average(u64::MAX, u64::MAX), u64::MAX);
}

#[test]
fn default_params() {
    let p = ConsensusParams::default();
    assert_eq!(p.target_block_time, 120_000);
    assert_eq!(p.difficulty_adjustment_interval, 144);
    assert_eq!(p.initial_difficulty, 4);
    assert_eq!(p.max_difficulty_change, 4);
    assert_eq!(p.block_reward, 5_000_000_000);
    assert_eq!(p.halving_interval, 210_000);
}

#[test]
fn block_takes_at_most_a_thousand_pending() {
    let mut engine = ConsensusEngine::new(easy_params());
    let (sk, pk) = keypair();
    let mut ids = Vec::new();
    for i in 0..1001u64 {
        let mut tx = Transaction::with_timestamp(bet(), i, 1_000);
        tx.sign(&sk, &pk).unwrap();
        ids.push(tx.id);
        engine.add_transaction(tx).unwrap();
    }
    let block = engine.mine_block("miner".to_string()).unwrap();
    assert_eq!(block.transactions.len(), 1001);
    assert_eq!(block.transactions[1].id, ids[0]);
    assert_eq!(block.transactions[1000].id, ids[999]);
    assert_eq!(engine.pending_transactions.len(), 1);
    assert_eq!(engine.pending_transactions[0].id, ids[1000]);
}
