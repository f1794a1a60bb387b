//! A small Bitcoin-style ledger: blocks mined by proof of work over a Merkle
//! commitment to their transactions, signed transactions that spend unspent
//! outputs, and the index of unspent outputs derived from the ledger.
pub mod address;
pub mod block;
pub mod blockchain;
pub mod clock;
pub mod encoding;
pub mod errors;
pub mod hashing;
pub mod keys;
pub mod transaction;
pub mod tx;
pub mod utxoset;
pub mod wallet;

