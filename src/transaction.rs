//! Transactions: their payloads, their identifiers and their signatures.
use vstd::prelude::*;
use crate::crypto::{
    Address,
    hash,
    sha256_of,
    sign,
    verify_bytes,
    ecdsa_accepts,
    serialize_public_key,
    signature_to_compact,
};
use crate::encoding::{
    be_u32,
    be_u64,
    be_i64,
    len_prefixed,
    text_bytes,
    concat_map,
    lemma_concat_map_step,
    put_u8,
    put_u32,
    put_u64,
    put_i64,
    put_hash,
    put_bytes,
    put_text,
};

verus! {

/// A reference to an output of an earlier transaction.
#[derive(Debug)]
pub struct TransactionInput {
    /// Identifier of the transaction whose output is spent.
    pub previous_output: crate::crypto::Hash,
    /// Position of the spent output in that transaction.
    pub output_index: u32,
    /// Carried and hashed, never evaluated.
    pub script_sig: Vec<u8>,
    pub sequence: u32,
}

/// An amount assigned to one address.
#[derive(Debug)]
pub struct TransactionOutput {
    pub value: u64,
    /// Carried and hashed, never evaluated.
    pub script_pubkey: Vec<u8>,
    pub address: Address,
}

/// Data of a market-creation record.
#[derive(Debug)]
pub struct MarketData {
    pub market_id: String,
    pub title: String,
    pub description: String,
    pub outcomes: Vec<String>,
    /// Milliseconds since the Unix epoch.
    pub end_time: i64,
    pub creator: Address,
    pub resolution_source: String,
}

/// Data of a bet record.
#[derive(Debug)]
pub struct BetData {
    pub market_id: String,
    pub outcome_index: u64,
    pub amount: u64,
    /// Decimal odds in thousandths (2500 stands for 2.5).
    pub odds: u64,
}

/// What a transaction does. Only `Transfer` moves value; the other kinds are
/// signed, hashed and chained records with no effect on balances.
#[derive(Debug)]
pub enum TransactionType {
    Transfer { inputs: Vec<TransactionInput>, outputs: Vec<TransactionOutput> },
    CreateMarket(MarketData),
    PlaceBet(BetData),
    ResolveMarket { market_id: String, winning_outcome: u64, proof: Vec<u8> },
    ClaimWinnings { market_id: String, bet_ids: Vec<crate::crypto::Hash> },
}

/// A signed, hashable unit of ledger change.
#[derive(Debug)]
pub struct Transaction {
    pub id: crate::crypto::Hash,
    pub version: u32,
    pub transaction_type: TransactionType,
    /// Milliseconds since the Unix epoch.
    pub timestamp: i64,
    pub fee: u64,
    /// Compact ECDSA signature over the encoded payload.
    pub signature: Option<Vec<u8>>,
    /// Serialized public key of the signer.
    pub public_key: Option<Vec<u8>>,
}

/// The encoded input.
pub open spec fn input_bytes(i: TransactionInput) -> Seq<u8> {
    i.previous_output@ + be_u32(i.output_index) + len_prefixed(i.script_sig@) + be_u32(i.sequence)
}

/// The encoded output.
pub open spec fn output_bytes(o: TransactionOutput) -> Seq<u8> {
    be_u64(o.value) + len_prefixed(o.script_pubkey@) + text_bytes(o.address@)
}

/// The encoded text.
pub open spec fn string_bytes(s: String) -> Seq<u8> {
    text_bytes(s@)
}

/// The 32 bytes of a digest, written as they are.
pub open spec fn hash_bytes(h: crate::crypto::Hash) -> Seq<u8> {
    h@
}

/// A list: its number of items, then each item.
pub open spec fn list_bytes<T>(s: Seq<T>, f: spec_fn(T) -> Seq<u8>) -> Seq<u8> {
    be_u64(s.len() as u64) + concat_map(s, f)
}

/// The encoded payload: a kind tag, then the fields in order.
pub open spec fn payload_bytes(t: TransactionType) -> Seq<u8> {
    match t {
        TransactionType::Transfer { inputs, outputs } => seq![0u8] + list_bytes(
            inputs@,
            |i: TransactionInput| input_bytes(i),
        ) + list_bytes(outputs@, |o: TransactionOutput| output_bytes(o)),
        TransactionType::CreateMarket(m) => seq![1u8] + text_bytes(m.market_id@) + text_bytes(
            m.title@,
        ) + text_bytes(m.description@) + list_bytes(m.outcomes@, |s: String| string_bytes(s))
            + be_i64(m.end_time) + text_bytes(m.creator@) + text_bytes(m.resolution_source@),
        TransactionType::PlaceBet(b) => seq![2u8] + text_bytes(b.market_id@) + be_u64(
            b.outcome_index,
        ) + be_u64(b.amount) + be_u64(b.odds),
        TransactionType::ResolveMarket { market_id, winning_outcome, proof } => seq![3u8]
            + text_bytes(market_id@) + be_u64(winning_outcome) + len_prefixed(proof@),
        TransactionType::ClaimWinnings { market_id, bet_ids } => seq![4u8] + text_bytes(
            market_id@,
        ) + list_bytes(bet_ids@, |h: crate::crypto::Hash| hash_bytes(h)),
    }
}

/// An absent value as a zero byte; a present one as a one byte and the
/// length-prefixed bytes.
pub open spec fn optional_bytes(o: Option<Vec<u8>>) -> Seq<u8> {
    match o {
        None => seq![0u8],
        Some(v) => seq![1u8] + len_prefixed(v@),
    }
}

/// What the identifier is the digest of: every field but the identifier and the
/// signature.
pub open spec fn id_preimage(tx: Transaction) -> Seq<u8> {
    be_u32(tx.version) + payload_bytes(tx.transaction_type) + be_i64(tx.timestamp) + be_u64(tx.fee)
        + optional_bytes(tx.public_key)
}

/// The identifier a transaction must carry.
pub open spec fn tx_id_of(tx: Transaction) -> Seq<u8> {
    sha256_of(id_preimage(tx))
}

/// Whether the transaction carries a signature and a public key, and the
/// signature is accepted for the encoded payload under that key.
pub open spec fn signature_valid(tx: Transaction) -> bool {
    match (tx.signature, tx.public_key) {
        (Some(s), Some(k)) => ecdsa_accepts(k@, s@, sha256_of(payload_bytes(tx.transaction_type))),
        _ => false,
    }
}

/// A transaction that creates value out of nothing: an unsigned transfer with no inputs.
pub open spec fn is_coinbase(tx: Transaction) -> bool {
    &&& tx.signature is None
    &&& match tx.transaction_type {
        TransactionType::Transfer { inputs, .. } => inputs@.len() == 0,
        _ => false,
    }
}

/// Relies on chrono::Utc::now: the current time in milliseconds since the Unix epoch.
#[verifier::external_body]
pub(crate) fn now_millis() -> (r: i64) {
    chrono::Utc::now().timestamp_millis()
}

impl Clone for TransactionInput {
    fn clone(&self) -> (r: Self)
        ensures
            r.previous_output == self.previous_output,
            r.output_index == self.output_index,
            r.script_sig@ == self.script_sig@,
            r.sequence == self.sequence,
    {
        let script_sig = self.script_sig.clone();
        assert(script_sig@ =~= self.script_sig@);
        TransactionInput {
            previous_output: self.previous_output,
            output_index: self.output_index,
            script_sig,
            sequence: self.sequence,
        }
    }
}

impl Clone for TransactionOutput {
    fn clone(&self) -> (r: Self)
        ensures
            r.value == self.value,
            r.script_pubkey@ == self.script_pubkey@,
            r.address@ == self.address@,
    {
        let script_pubkey = self.script_pubkey.clone();
        assert(script_pubkey@ =~= self.script_pubkey@);
        TransactionOutput { value: self.value, script_pubkey, address: self.address.clone() }
    }
}

impl Clone for MarketData {
    fn clone(&self) -> (r: Self) {
        MarketData {
            market_id: self.market_id.clone(),
            title: self.title.clone(),
            description: self.description.clone(),
            outcomes: self.outcomes.clone(),
            end_time: self.end_time,
            creator: self.creator.clone(),
            resolution_source: self.resolution_source.clone(),
        }
    }
}

impl Clone for BetData {
    fn clone(&self) -> (r: Self)
        ensures
            r == *self,
    {
        BetData {
            market_id: self.market_id.clone(),
            outcome_index: self.outcome_index,
            amount: self.amount,
            odds: self.odds,
        }
    }
}

impl Clone for TransactionType {
    fn clone(&self) -> (r: Self) {
        match self {
            TransactionType::Transfer { inputs, outputs } => TransactionType::Transfer {
                inputs: inputs.clone(),
                outputs: outputs.clone(),
            },
            TransactionType::CreateMarket(m) => TransactionType::CreateMarket(m.clone()),
            TransactionType::PlaceBet(b) => TransactionType::PlaceBet(b.clone()),
            TransactionType::ResolveMarket { market_id, winning_outcome, proof } =>
                TransactionType::ResolveMarket {
                market_id: market_id.clone(),
                winning_outcome: *winning_outcome,
                proof: proof.clone(),
            },
            TransactionType::ClaimWinnings { market_id, bet_ids } =>
                TransactionType::ClaimWinnings {
                market_id: market_id.clone(),
                bet_ids: bet_ids.clone(),
            },
        }
    }
}

impl Clone for Transaction {
    fn clone(&self) -> (r: Self)
        ensures
            r.id == self.id,
            r.version == self.version,
            r.timestamp == self.timestamp,
            r.fee == self.fee,
    {
        Transaction {
            id: self.id,
            version: self.version,
            transaction_type: self.transaction_type.clone(),
            timestamp: self.timestamp,
            fee: self.fee,
            signature: self.signature.clone(),
            public_key: self.public_key.clone(),
        }
    }
}


fn put_input(out: &mut Vec<u8>, i: &TransactionInput)
    ensures
        final(out)@ == old(out)@ + input_bytes(*i),
{
    put_hash(out, &i.previous_output);
    put_u32(out, i.output_index);
    put_bytes(out, i.script_sig.as_slice());
    put_u32(out, i.sequence);
    assert(out@ =~= old(out)@ + input_bytes(*i));
}

fn put_output(out: &mut Vec<u8>, o: &TransactionOutput)
    ensures
        final(out)@ == old(out)@ + output_bytes(*o),
{
    put_u64(out, o.value);
    put_bytes(out, o.script_pubkey.as_slice());
    put_text(out, o.address.as_str());
    assert(out@ =~= old(out)@ + output_bytes(*o));
}

fn put_inputs(out: &mut Vec<u8>, items: &Vec<TransactionInput>)
    ensures
        final(out)@ == old(out)@ + list_bytes(items@, |i: TransactionInput| input_bytes(i)),
{
    let ghost f = |i: TransactionInput| input_bytes(i);
    put_u64(out, items.len() as u64);
    let ghost start = out@;
    let mut k: usize = 0;
    while k < items.len()
        invariant
            k <= items@.len(),
            f == (|i: TransactionInput| input_bytes(i)),
            out@ == start + concat_map(items@.subrange(0, k as int), f),
        decreases items@.len() - k,
    {
        proof {
            lemma_concat_map_step(items@, f, k as int);
        }
        put_input(out, &items[k]);
        k = k + 1;
        assert(out@ =~= start + concat_map(items@.subrange(0, k as int), f));
    }
    assert(items@.subrange(0, items@.len() as int) =~= items@);
    assert(out@ =~= old(out)@ + list_bytes(items@, f));
}

fn put_outputs(out: &mut Vec<u8>, items: &Vec<TransactionOutput>)
    ensures
        final(out)@ == old(out)@ + list_bytes(items@, |o: TransactionOutput| output_bytes(o)),
{
    let ghost f = |o: TransactionOutput| output_bytes(o);
    put_u64(out, items.len() as u64);
    let ghost start = out@;
    let mut k: usize = 0;
    while k < items.len()
        invariant
            k <= items@.len(),
            f == (|o: TransactionOutput| output_bytes(o)),
            out@ == start + concat_map(items@.subrange(0, k as int), f),
        decreases items@.len() - k,
    {
        proof {
            lemma_concat_map_step(items@, f, k as int);
        }
        put_output(out, &items[k]);
        k = k + 1;
        assert(out@ =~= start + concat_map(items@.subrange(0, k as int), f));
    }
    assert(items@.subrange(0, items@.len() as int) =~= items@);
    assert(out@ =~= old(out)@ + list_bytes(items@, f));
}

fn put_strings(out: &mut Vec<u8>, items: &Vec<String>)
    ensures
        final(out)@ == old(out)@ + list_bytes(items@, |s: String| string_bytes(s)),
{
    let ghost f = |s: String| string_bytes(s);
    put_u64(out, items.len() as u64);
    let ghost start = out@;
    let mut k: usize = 0;
    while k < items.len()
        invariant
            k <= items@.len(),
            f == (|s: String| string_bytes(s)),
            out@ == start + concat_map(items@.subrange(0, k as int), f),
        decreases items@.len() - k,
    {
        proof {
            lemma_concat_map_step(items@, f, k as int);
        }
        put_text(out, items[k].as_str());
        k = k + 1;
        assert(out@ =~= start + concat_map(items@.subrange(0, k as int), f));
    }
    assert(items@.subrange(0, items@.len() as int) =~= items@);
    assert(out@ =~= old(out)@ + list_bytes(items@, f));
}

fn put_hashes(out: &mut Vec<u8>, items: &Vec<crate::crypto::Hash>)
    ensures
        final(out)@ == old(out)@ + list_bytes(items@, |h: crate::crypto::Hash| hash_bytes(h)),
{
    let ghost f = |h: crate::crypto::Hash| hash_bytes(h);
    put_u64(out, items.len() as u64);
    let ghost start = out@;
    let mut k: usize = 0;
    while k < items.len()
        invariant
            k <= items@.len(),
            f == (|h: crate::crypto::Hash| hash_bytes(h)),
            out@ == start + concat_map(items@.subrange(0, k as int), f),
        decreases items@.len() - k,
    {
        proof {
            lemma_concat_map_step(items@, f, k as int);
        }
        put_hash(out, &items[k]);
        k = k + 1;
        assert(out@ =~= start + concat_map(items@.subrange(0, k as int), f));
    }
    assert(items@.subrange(0, items@.len() as int) =~= items@);
    assert(out@ =~= old(out)@ + list_bytes(items@, f));
}

/// The encoded payload, the message that signatures are computed over.
pub fn encode_payload(t: &TransactionType) -> (r: Vec<u8>)
    ensures
        r@ == payload_bytes(*t),
{
    let mut out: Vec<u8> = Vec::new();
    match t {
        TransactionType::Transfer { inputs, outputs } => {
            put_u8(&mut out, 0);
            put_inputs(&mut out, inputs);
            put_outputs(&mut out, outputs);
        },
        TransactionType::CreateMarket(m) => {
            put_u8(&mut out, 1);
            put_text(&mut out, m.market_id.as_str());
            put_text(&mut out, m.title.as_str());
            put_text(&mut out, m.description.as_str());
            put_strings(&mut out, &m.outcomes);
            put_i64(&mut out, m.end_time);
            put_text(&mut out, m.creator.as_str());
            put_text(&mut out, m.resolution_source.as_str());
        },
        TransactionType::PlaceBet(b) => {
            put_u8(&mut out, 2);
            put_text(&mut out, b.market_id.as_str());
            put_u64(&mut out, b.outcome_index);
            put_u64(&mut out, b.amount);
            put_u64(&mut out, b.odds);
        },
        TransactionType::ResolveMarket { market_id, winning_outcome, proof } => {
            put_u8(&mut out, 3);
            put_text(&mut out, market_id.as_str());
            put_u64(&mut out, *winning_outcome);
            put_bytes(&mut out, proof.as_slice());
        },
        TransactionType::ClaimWinnings { market_id, bet_ids } => {
            put_u8(&mut out, 4);
            put_text(&mut out, market_id.as_str());
            put_hashes(&mut out, bet_ids);
        },
    }
    assert(out@ =~= payload_bytes(*t));
    out
}

impl Transaction {
    /// A transaction with the given identifier-free fields, unsigned, its
    /// identifier computed.
    pub fn with_timestamp(transaction_type: TransactionType, fee: u64, timestamp: i64) -> (r: Self)
        ensures
            r.version == 1,
            r.transaction_type == transaction_type,
            r.timestamp == timestamp,
            r.fee == fee,
            r.signature is None,
            r.public_key is None,
            r.id@ == tx_id_of(r),
    {
        let mut tx = Transaction {
            id: [0u8; 32],
            version: 1,
            transaction_type,
            timestamp,
            fee,
            signature: None,
            public_key: None,
        };
        tx.id = tx.calculate_hash();
        tx
    }

    /// A new unsigned transaction stamped with the current time.
    pub fn new(transaction_type: TransactionType, fee: u64) -> (r: Self)
        ensures
            r.version == 1,
            r.transaction_type == transaction_type,
            r.fee == fee,
            r.signature is None,
            r.public_key is None,
            r.id@ == tx_id_of(r),
    {
        let now = now_millis();
        Transaction::with_timestamp(transaction_type, fee, now)
    }

    /// The digest of every field but the identifier and the signature.
    pub fn calculate_hash(&self) -> (r: crate::crypto::Hash)
        ensures
            r@ == tx_id_of(*self),
    {
        let mut out: Vec<u8> = Vec::new();
        put_u32(&mut out, self.version);
        let payload = encode_payload(&self.transaction_type);
        crate::encoding::put_raw(&mut out, payload.as_slice());
        put_i64(&mut out, self.timestamp);
        put_u64(&mut out, self.fee);
        match &self.public_key {
            None => {
                put_u8(&mut out, 0);
            },
            Some(key) => {
                put_u8(&mut out, 1);
                put_bytes(&mut out, key.as_slice());
            },
        }
        assert(out@ =~= id_preimage(*self));
        hash(out.as_slice())
    }

    /// Signs the encoded payload, stores the compact signature and the compressed
    /// public key, and recomputes the identifier.
    pub fn sign(
        &mut self,
        secret_key: &secp256k1::SecretKey,
        public_key: &secp256k1::PublicKey,
    ) -> (r: Result<(), secp256k1::Error>)
        ensures
            r is Ok,
            final(self).version == old(self).version,
            final(self).transaction_type == old(self).transaction_type,
            final(self).timestamp == old(self).timestamp,
            final(self).fee == old(self).fee,
            final(self).signature matches Some(s) && s@.len() == 64,
            final(self).public_key matches Some(k) && k@.len() == 33,
            final(self).id@ == tx_id_of(*final(self)),
    {
        let data = encode_payload(&self.transaction_type);
        let signature = match sign(secret_key, data.as_slice()) {
            Ok(s) => s,
            Err(e) => {
                return Err(e);
            },
        };
        self.signature = Some(signature_to_compact(&signature));
        self.public_key = Some(serialize_public_key(public_key));
        self.id = self.calculate_hash();
        Ok(())
    }

    /// Whether this is an unsigned transfer with no inputs, the form of a reward.
    pub fn is_coinbase(&self) -> (r: bool)
        ensures
            r == is_coinbase(*self),
    {
        match (&self.signature, &self.transaction_type) {
            (None, TransactionType::Transfer { inputs, .. }) => inputs.len() == 0,
            _ => false,
        }
    }

    /// Whether both the signature and the public key are present and the
    /// signature is accepted for the encoded payload under that key.
    pub fn verify_signature(&self) -> (r: bool)
        ensures
            r == signature_valid(*self),
    {
        match (&self.signature, &self.public_key) {
            (Some(sig_bytes), Some(key_bytes)) => {
                let data = encode_payload(&self.transaction_type);
                verify_bytes(key_bytes.as_slice(), sig_bytes.as_slice(), data.as_slice())
            },
            _ => false,
        }
    }
}

} // verus!
