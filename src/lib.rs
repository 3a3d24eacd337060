//! A single-node proof-of-work ledger: hashing and signing primitives, signed
//! transactions, Merkle commitments, mined blocks and a consensus engine that owns
//! the chain, the pool of pending transactions and the set of unspent outputs.
pub mod crypto;
pub mod encoding;
pub mod transaction;
pub mod merkle;
pub mod block;
pub mod consensus;
pub mod event_sources;
pub mod escrow;
