use vstd::prelude::*;

use crate::transaction::Transaction;
use crate::transaction::TransactionView;

verus! {

/// The error of the crate `bincode`, carried through unread.
#[verifier::external_type_specification]
#[verifier::external_body]
pub struct ExErrorKind(bincode::ErrorKind);

/// The canonical encoding of the tuple that a block's hash is taken over:
/// previous hash, Merkle root, timestamp, difficulty target and nonce.
/// `None` where the encoder reports an error.
pub uninterp spec fn spec_header_encoding(
    prev_hash: Seq<char>,
    root: Seq<u8>,
    timestamp: u128,
    target: usize,
    nonce: i32,
) -> Option<Seq<u8>>;

/// The canonical encoding of a transaction: its id, its inputs and its
/// outputs, field by field in that order. `None` where the encoder reports an
/// error.
pub uninterp spec fn spec_transaction_encoding(tx: TransactionView) -> Option<Seq<u8>>;

/// Calls `bincode::serialize` on the tuple of the five values. Trusted:
/// whether the call succeeds, and the bytes it gives, depend on the five
/// values alone.
#[verifier::external_body]
pub(crate) fn encode_header(
    prev_hash: &String,
    root: &Vec<u8>,
    timestamp: u128,
    target: usize,
    nonce: i32,
) -> (r: Result<Vec<u8>, Box<bincode::ErrorKind>>)
    ensures
        r.is_ok() == spec_header_encoding(prev_hash@, root@, timestamp, target, nonce).is_some(),
        r matches Ok(bytes) ==> spec_header_encoding(prev_hash@, root@, timestamp, target, nonce)
            == Some(bytes@),
{
    bincode::serialize(&(prev_hash, root, timestamp, target, nonce))
}

/// Calls `bincode::serialize` on the transaction written as nested tuples:
/// the id, the inputs as (txid, vout, signature, pub_key) and the outputs as
/// (value, pub_key_hash). The encoder writes a tuple as it writes a struct,
/// field after field. Trusted: whether the call succeeds, and the bytes it
/// gives, depend on the transaction's contents alone.
#[verifier::external_body]
pub(crate) fn encode_transaction(tx: &Transaction) -> (r: Result<Vec<u8>, Box<bincode::ErrorKind>>)
    ensures
        r.is_ok() == spec_transaction_encoding(tx@).is_some(),
        r matches Ok(bytes) ==> spec_transaction_encoding(tx@) == Some(bytes@),
{
    let vin: Vec<(&String, i32, &Vec<u8>, &Vec<u8>)> =
        tx.vin.iter().map(|i| (&i.txid, i.vout, &i.signature, &i.pub_key)).collect();
    let vout: Vec<(u32, &Vec<u8>)> = tx.vout.iter().map(|o| (o.value, &o.pub_key_hash)).collect();
    bincode::serialize(&(&tx.id, vin, vout))
}

} // verus!
