use vstd::prelude::*;
use vstd::string::StrSliceExecFns;
use vstd::string::StringExecFns;
use vstd::utf8::encode_utf8;

use crate::address::decode_spec;
use crate::blockchain::chain_transactions;
use crate::encoding::encode_transaction;
use crate::encoding::spec_transaction_encoding;
use crate::errors::ChainError;
use crate::hashing::hex_lower;
use crate::hashing::sha256;
use crate::hashing::sha256_hex;
use crate::hashing::spec_sha256;
use crate::keys::PUBLIC_KEY_LEN;
use crate::keys::SECRET_KEY_LEN;
use crate::keys::SEED_LEN;
use crate::keys::SIGNATURE_LEN;
use crate::keys::ed25519_signature;
use crate::keys::ed25519_verify;
use crate::keys::is_keypair;
use crate::keys::spec_ed25519_keypair;
use crate::keys::spec_ed25519_signature;
use crate::keys::spec_ed25519_verify;
use crate::tx::TXInput;
use crate::tx::TXInputView;
use crate::tx::TXOutput;
use crate::tx::TXOutputView;
use crate::tx::input_views;
use crate::tx::output_views;
use crate::utxoset::UTXOSet;
use crate::utxoset::UnspentOutputView;
use crate::utxoset::ref_views;
use crate::utxoset::spendable;
use crate::wallet::Wallet;
use crate::wallet::pub_key_hash_spec;

pub use crate::wallet::hash_pub_key;

verus! {

/// A transfer of value: inputs that spend earlier outputs, and new outputs.
#[derive(Debug)]
pub struct Transaction {
    pub id: String,
    pub vin: Vec<TXInput>,
    pub vout: Vec<TXOutput>,
}

/// What a `Transaction` holds, as mathematical values.
pub struct TransactionView {
    pub id: Seq<char>,
    pub vin: Seq<TXInputView>,
    pub vout: Seq<TXOutputView>,
}

impl View for Transaction {
    type V = TransactionView;

    open spec fn view(&self) -> TransactionView {
        TransactionView {
            id: self.id@,
            vin: input_views(self.vin@),
            vout: output_views(self.vout@),
        }
    }
}

impl Clone for Transaction {
    fn clone(&self) -> (r: Self)
        ensures
            r@ == self@,
    {
        let r = Transaction { id: self.id.clone(), vin: self.vin.clone(), vout: self.vout.clone() };
        assert(r@.vin =~= self@.vin);
        assert(r@.vout =~= self@.vout);
        r
    }
}

/// An input with its signature and public key cleared.
pub open spec fn trimmed_input(input: TXInputView) -> TXInputView {
    TXInputView {
        txid: input.txid,
        vout: input.vout,
        signature: Seq::empty(),
        pub_key: Seq::empty(),
    }
}

/// The value of the single output of a coinbase transaction.
pub const SUBSIDY: u32 = 100;

/// The views of a sequence of transactions, in order.
pub open spec fn transaction_views(txs: Seq<Transaction>) -> Seq<TransactionView> {
    txs.map_values(|t: Transaction| t@)
}

/// Some transaction of `txs` carries the id `id`.
pub open spec fn has_tx(txs: Seq<TransactionView>, id: Seq<char>) -> bool {
    exists|k: int| 0 <= k < txs.len() && (#[trigger] txs[k]).id == id
}

/// `k` is the place of the first transaction of `txs` that carries `id`.
pub open spec fn is_first_tx(txs: Seq<TransactionView>, id: Seq<char>, k: int) -> bool {
    &&& 0 <= k < txs.len()
    &&& txs[k].id == id
    &&& forall|j: int| 0 <= j < k ==> (#[trigger] txs[j]).id != id
}

/// The place of the first transaction of `txs` that carries `id`.
pub open spec fn first_tx(txs: Seq<TransactionView>, id: Seq<char>) -> int {
    choose|k: int| is_first_tx(txs, id, k)
}

/// The transaction that `input` refers to is absent from `prev`, or the
/// input names the empty id.
pub open spec fn prev_tx_missing(prev: Seq<TransactionView>, input: TXInputView) -> bool {
    input.txid.len() == 0 || !has_tx(prev, input.txid)
}

/// The transaction that `input` refers to lacks the output it names.
pub open spec fn prev_output_missing(prev: Seq<TransactionView>, input: TXInputView) -> bool {
    !(0 <= input.vout < prev[first_tx(prev, input.txid)].vout.len())
}

/// The key hash that the output spent by `input` is locked to.
pub open spec fn prev_key_hash(prev: Seq<TransactionView>, input: TXInputView) -> Seq<u8> {
    prev[first_tx(prev, input.txid)].vout[input.vout as int].pub_key_hash
}

/// Every key pair whose secret half is `secret_key` accepts `signature` for
/// `message` under its public half.
pub open spec fn accepted_under_pairs(
    message: Seq<u8>,
    secret_key: Seq<u8>,
    signature: Seq<u8>,
) -> bool {
    forall|seed: Seq<u8>|
        seed.len() == SEED_LEN && (#[trigger] spec_ed25519_keypair(seed)).0 == secret_key
            ==> spec_ed25519_verify(message, spec_ed25519_keypair(seed).1, signature)
}

/// The input of a coinbase transaction that carries `memo`.
pub open spec fn coinbase_input(memo: Seq<char>) -> TXInputView {
    TXInputView {
        txid: Seq::empty(),
        vout: -1i32,
        signature: Seq::empty(),
        pub_key: encode_utf8(memo),
    }
}

/// The memo of a coinbase transaction: `data`, or the default reward text
/// for `to` when `data` is empty.
pub open spec fn coinbase_memo(to: Seq<char>, data: Seq<char>) -> Seq<char> {
    if data.len() == 0 {
        "Reward to '"@ + to + "'"@
    } else {
        data
    }
}

/// The coinbase transaction, before its id is set, that pays the subsidy to
/// `key_hash` and carries `memo`.
pub open spec fn coinbase_body(key_hash: Seq<u8>, memo: Seq<char>) -> TransactionView {
    TransactionView {
        id: Seq::empty(),
        vin: seq![coinbase_input(memo)],
        vout: seq![TXOutputView { value: SUBSIDY, pub_key_hash: key_hash }],
    }
}

impl TransactionView {
    /// Exactly one input, with an empty `txid` and the output index -1.
    pub open spec fn is_coinbase(self) -> bool {
        self.vin.len() == 1 && self.vin[0].txid.len() == 0 && self.vin[0].vout == -1
    }

    /// The same transaction under another id.
    pub open spec fn with_id(self, id: Seq<char>) -> TransactionView {
        TransactionView { id, vin: self.vin, vout: self.vout }
    }

    /// The same transaction with the public key of input `i` replaced.
    pub open spec fn with_input_key(self, i: int, key: Seq<u8>) -> TransactionView {
        TransactionView {
            id: self.id,
            vin: self.vin.update(
                i,
                TXInputView {
                    txid: self.vin[i].txid,
                    vout: self.vin[i].vout,
                    signature: self.vin[i].signature,
                    pub_key: key,
                },
            ),
            vout: self.vout,
        }
    }

    /// The trimmed copy: every input's signature and public key cleared.
    pub open spec fn trimmed(self) -> TransactionView {
        TransactionView {
            id: self.id,
            vin: self.vin.map_values(|i: TXInputView| trimmed_input(i)),
            vout: self.vout,
        }
    }

    /// The transaction's digest: the SHA-256 of its canonical encoding with
    /// the id cleared. `None` where it has no encoding.
    pub open spec fn digest_bytes(self) -> Option<Seq<u8>> {
        match spec_transaction_encoding(self.with_id(Seq::empty())) {
            Some(bytes) => Some(spec_sha256(bytes)),
            None => None,
        }
    }

    /// The transaction's digest as hexadecimal text, which serves as its id.
    /// `None` where it has no encoding.
    pub open spec fn digest(self) -> Option<Seq<char>> {
        match self.digest_bytes() {
            Some(bytes) => Some(hex_lower(bytes)),
            None => None,
        }
    }

    /// Some input refers to a transaction that `prev` lacks.
    pub open spec fn any_prev_tx_missing(self, prev: Seq<TransactionView>) -> bool {
        exists|i: int| 0 <= i < self.vin.len() && prev_tx_missing(prev, #[trigger] self.vin[i])
    }

    /// Some input refers to an output that its source transaction lacks.
    pub open spec fn any_prev_output_missing(self, prev: Seq<TransactionView>) -> bool {
        exists|i: int| 0 <= i < self.vin.len() && prev_output_missing(prev, #[trigger] self.vin[i])
    }

    /// The text that the signature of input `i` is made over: the digest of
    /// the trimmed copy in which input `i` alone carries, as its public key,
    /// the key hash of the output it spends.
    pub open spec fn signing_payload(self, prev: Seq<TransactionView>, i: int) -> Option<
        Seq<char>,
    > {
        self.trimmed().with_input_key(i, prev_key_hash(prev, self.vin[i])).digest()
    }

    /// Some input has no signing payload, for want of an encoding.
    pub open spec fn any_payload_missing(self, prev: Seq<TransactionView>) -> bool {
        exists|i: int| 0 <= i < self.vin.len() && #[trigger] self.signing_payload(prev, i) is None
    }

    /// Input `i` carries a public key and a signature of full length, and the
    /// signature is accepted for the input's signing payload under that key.
    pub open spec fn input_verifies(self, prev: Seq<TransactionView>, i: int) -> bool {
        match self.signing_payload(prev, i) {
            Some(payload) => {
                &&& self.vin[i].pub_key.len() >= PUBLIC_KEY_LEN
                &&& self.vin[i].signature.len() >= SIGNATURE_LEN
                &&& spec_ed25519_verify(
                    encode_utf8(payload),
                    self.vin[i].pub_key,
                    self.vin[i].signature,
                )
            },
            None => false,
        }
    }

    /// The outcome of checking the inputs from `i` on, in order: the first
    /// input without a payload gives `Serialization`, the first whose
    /// signature is not accepted gives `false`.
    pub open spec fn verify_from(self, prev: Seq<TransactionView>, i: int) -> Result<
        bool,
        ChainError,
    >
        decreases self.vin.len() - i,
    {
        if i < 0 || i >= self.vin.len() {
            Ok(true)
        } else if self.signing_payload(prev, i) is None {
            Err(ChainError::Serialization)
        } else if !self.input_verifies(prev, i) {
            Ok(false)
        } else {
            self.verify_from(prev, i + 1)
        }
    }

    /// The outcome of verifying the transaction against `prev`.
    pub open spec fn verify_spec(self, prev: Seq<TransactionView>) -> Result<bool, ChainError> {
        if self.is_coinbase() {
            Ok(true)
        } else if self.any_prev_tx_missing(prev) {
            Err(ChainError::MissingPrevTransaction)
        } else if self.any_prev_output_missing(prev) {
            Err(ChainError::MissingPrevOutput)
        } else {
            self.verify_from(prev, 0)
        }
    }

    /// `signed` is `self` with the signature of every input replaced by the
    /// signature, under `secret_key`, of that input's signing payload.
    pub open spec fn signed_as(
        self,
        signed: TransactionView,
        secret_key: Seq<u8>,
        prev: Seq<TransactionView>,
    ) -> bool {
        &&& signed.id == self.id
        &&& signed.vout == self.vout
        &&& signed.vin.len() == self.vin.len()
        &&& forall|i: int|
            0 <= i < self.vin.len() ==> {
                &&& self.signing_payload(prev, i) is Some
                &&& (#[trigger] signed.vin[i]) == (TXInputView {
                    txid: self.vin[i].txid,
                    vout: self.vin[i].vout,
                    signature: spec_ed25519_signature(
                        encode_utf8(self.signing_payload(prev, i).unwrap()),
                        secret_key,
                    ),
                    pub_key: self.vin[i].pub_key,
                })
            }
    }

    /// Every input carries `public_key`.
    pub open spec fn all_inputs_carry(self, public_key: Seq<u8>) -> bool {
        forall|i: int| 0 <= i < self.vin.len() ==> (#[trigger] self.vin[i]).pub_key == public_key
    }

    /// Every input of `signed` carries a signature of full length that every
    /// key pair with the secret half `secret_key` accepts, under its public
    /// half, for the signing payload that `self` gives that input.
    pub open spec fn signatures_accepted(
        self,
        signed: TransactionView,
        secret_key: Seq<u8>,
        prev: Seq<TransactionView>,
    ) -> bool {
        forall|i: int|
            0 <= i < self.vin.len() ==> {
                &&& (#[trigger] signed.vin[i]).signature.len() == SIGNATURE_LEN
                &&& accepted_under_pairs(
                    encode_utf8(self.signing_payload(prev, i).unwrap()),
                    secret_key,
                    signed.vin[i].signature,
                )
            }
    }

    /// What signing does to `self`: a coinbase transaction is left alone; a
    /// missing source transaction, a missing source output, a secret key
    /// too short for the signatures to be made, or a missing payload is
    /// reported, in that order of precedence, and leaves the transaction
    /// alone; otherwise `after` is `self` signed.
    pub open spec fn sign_result(
        self,
        after: TransactionView,
        secret_key: Seq<u8>,
        prev: Seq<TransactionView>,
        r: Result<(), ChainError>,
    ) -> bool {
        if self.is_coinbase() {
            r is Ok && after == self
        } else if self.any_prev_tx_missing(prev) {
            r == Err::<(), ChainError>(ChainError::MissingPrevTransaction) && after == self
        } else if self.any_prev_output_missing(prev) {
            r == Err::<(), ChainError>(ChainError::MissingPrevOutput) && after == self
        } else if self.vin.len() > 0 && secret_key.len() < SECRET_KEY_LEN {
            r == Err::<(), ChainError>(ChainError::InvalidKey) && after == self
        } else if self.any_payload_missing(prev) {
            r == Err::<(), ChainError>(ChainError::Serialization) && after == self
        } else {
            r is Ok && self.signed_as(after, secret_key, prev)
        }
    }
}

/// The inputs of a spend: one for each reference taken, in order, without a
/// signature and with the sender's public key.
pub open spec fn spend_inputs(taken: Seq<(Seq<char>, i32)>, public_key: Seq<u8>) -> Seq<
    TXInputView,
> {
    taken.map_values(
        |r: (Seq<char>, i32)|
            TXInputView { txid: r.0, vout: r.1, signature: Seq::empty(), pub_key: public_key },
    )
}

/// The outputs of a spend: the amount to the recipient, then, where the
/// inputs' total exceeds the amount, the rest back to the sender.
pub open spec fn spend_outputs(amount: i32, to_hash: Seq<u8>, total: int, own_hash: Seq<u8>) -> Seq<
    TXOutputView,
> {
    if total > amount {
        seq![
            TXOutputView { value: amount as u32, pub_key_hash: to_hash },
            TXOutputView { value: (total - amount) as u32, pub_key_hash: own_hash },
        ]
    } else {
        seq![TXOutputView { value: amount as u32, pub_key_hash: to_hash }]
    }
}

/// The spend of `amount` from the holder of `public_key` to `to_hash`, drawn
/// from the index `entries`, before its id is set and its inputs are signed.
pub open spec fn spend_body(
    entries: Seq<UnspentOutputView>,
    public_key: Seq<u8>,
    to_hash: Seq<u8>,
    amount: i32,
) -> TransactionView {
    let own_hash = pub_key_hash_spec(public_key);
    let (total, taken) = spendable(entries, own_hash, amount);
    TransactionView {
        id: Seq::empty(),
        vin: spend_inputs(taken, public_key),
        vout: spend_outputs(amount, to_hash, total, own_hash),
    }
}

/// The spend under its id, the digest of its body, before its inputs are
/// signed.
pub open spec fn spend_unsigned(
    entries: Seq<UnspentOutputView>,
    public_key: Seq<u8>,
    to_hash: Seq<u8>,
    amount: i32,
) -> TransactionView {
    let body = spend_body(entries, public_key, to_hash, amount);
    body.with_id(body.digest().unwrap())
}

/// No two inputs refer to the same output.
pub open spec fn distinct_inputs(vin: Seq<TXInputView>) -> bool {
    forall|a: int, b: int|
        0 <= a < b < vin.len() ==> !((#[trigger] vin[a]).txid == (#[trigger] vin[b]).txid
            && vin[a].vout == vin[b].vout)
}

/// The entry's output is found where verification looks for it: the walk
/// holds a transaction with the entry's id, the first such transaction has
/// the output that the entry names, and that output is locked as the
/// entry's is.
pub proof fn lemma_listed_is_found(
    visit: Seq<TransactionView>,
    entry: UnspentOutputView,
    input: TXInputView,
)
    requires
        crate::utxoset::is_listed(visit, entry),
        input.txid == entry.txid,
        input.vout == entry.index,
    ensures
        has_tx(visit, input.txid),
        !prev_output_missing(visit, input),
        prev_key_hash(visit, input) == entry.output.pub_key_hash,
        entry.index >= 0,
{
    let p = choose|p: int| #[trigger] crate::utxoset::is_listed_at(visit, p, entry);
    crate::utxoset::lemma_first_tx_is(visit, entry.txid, p);
}

impl Transaction {
    /// Whether the transaction mints a reward instead of spending outputs.
    pub fn is_coinbase(&self) -> (r: bool)
        ensures
            r == self@.is_coinbase(),
    {
        self.vin.len() == 1 && self.vin[0].txid.as_str().is_empty() && self.vin[0].vout == -1
    }

    /// The transaction's digest, which serves as its id.
    pub fn hash(&self) -> (r: Result<String, ChainError>)
        ensures
            match self@.digest() {
                Some(d) => r matches Ok(s) && s@ == d && d.len() == 64,
                None => r matches Err(e) && e == ChainError::Serialization,
            },
    {
        let mut copy = self.clone();
        copy.id = String::new();
        match encode_transaction(&copy) {
            Ok(data) => Ok(sha256_hex(data.as_slice())),
            Err(_) => Err(ChainError::Serialization),
        }
    }

    /// The transaction's digest as its 32 bytes: the leaf that stands for the
    /// transaction in a block's Merkle tree.
    pub fn hash_bytes(&self) -> (r: Result<Vec<u8>, ChainError>)
        ensures
            match self@.digest_bytes() {
                Some(d) => r matches Ok(b) && b@ == d && d.len() == 32,
                None => r matches Err(e) && e == ChainError::Serialization,
            },
    {
        let mut copy = self.clone();
        copy.id = String::new();
        match encode_transaction(&copy) {
            Ok(data) => Ok(sha256(data.as_slice())),
            Err(_) => Err(ChainError::Serialization),
        }
    }

    /// A copy with every input's signature and public key cleared.
    pub fn trim_copy(&self) -> (r: Transaction)
        ensures
            r@ == self@.trimmed(),
    {
        let mut vin: Vec<TXInput> = Vec::new();
        let mut vout: Vec<TXOutput> = Vec::new();
        let mut i: usize = 0;
        while i < self.vin.len()
            invariant
                i <= self.vin.len(),
                vin@.len() == i,
                forall|k: int| 0 <= k < i ==> (#[trigger] vin@[k])@ == trimmed_input(self.vin@[k]@),
            decreases self.vin.len() - i,
        {
            let v = &self.vin[i];
            vin.push(
                TXInput {
                    txid: v.txid.clone(),
                    vout: v.vout,
                    signature: Vec::new(),
                    pub_key: Vec::new(),
                },
            );
            i += 1;
        }
        let mut j: usize = 0;
        while j < self.vout.len()
            invariant
                j <= self.vout.len(),
                vout@.len() == j,
                forall|k: int| 0 <= k < j ==> (#[trigger] vout@[k])@ == self.vout@[k]@,
            decreases self.vout.len() - j,
        {
            let v = &self.vout[j];
            vout.push(TXOutput { value: v.value, pub_key_hash: v.pub_key_hash.clone() });
            j += 1;
        }
        let r = Transaction { id: self.id.clone(), vin, vout };
        assert(r@.vin =~= self@.trimmed().vin);
        assert(r@.vout =~= self@.trimmed().vout);
        r
    }

    /// The spend of `amount` from the wallet's holder to the address `to`,
    /// drawn from the outputs that the index `bc` lists for the wallet's key
    /// hash, with its id set and every input signed against the ledger of
    /// `bc`. It has one input for each output taken from the index, and no
    /// two inputs refer to the same output. Where the wallet holds a key
    /// pair, the transaction verifies against that ledger.
    #[allow(non_snake_case)]
    pub fn new_UTXO(wallet: &Wallet, to: &str, amount: i32, bc: &UTXOSet) -> (r: Result<
        Transaction,
        ChainError,
    >)
        requires
            amount >= 0,
        ensures
            ({
                let own_hash = pub_key_hash_spec(wallet.public_key@);
                let total = spendable(bc@, own_hash, amount).0;
                let prev = chain_transactions(bc.ledger());
                if total < amount {
                    r matches Err(e) && e == ChainError::InsufficientFunds
                } else {
                    match decode_spec(to@) {
                        None => r matches Err(e) && e == ChainError::CorruptAddress,
                        Some(to_hash) => {
                            let body = spend_body(bc@, wallet.public_key@, to_hash, amount);
                            match body.digest() {
                                None => r matches Err(e) && e == ChainError::Serialization,
                                Some(d) => match r {
                                    Ok(tx) => body.with_id(d).sign_result(
                                        tx@,
                                        wallet.secret_key@,
                                        prev,
                                        Ok(()),
                                    ),
                                    Err(e) => body.with_id(d).sign_result(
                                        body.with_id(d),
                                        wallet.secret_key@,
                                        prev,
                                        Err(e),
                                    ),
                                },
                            }
                        },
                    }
                }
            }),
            r matches Ok(tx) ==> {
                let own_hash = pub_key_hash_spec(wallet.public_key@);
                let unsigned = spend_unsigned(
                    bc@,
                    wallet.public_key@,
                    decode_spec(to@).unwrap(),
                    amount,
                );
                &&& !tx@.is_coinbase()
                &&& tx@.id.len() == 64
                &&& tx@.id == unsigned.id
                &&& tx@.vout == unsigned.vout
                &&& tx@.vin.len() == spendable(bc@, own_hash, amount).1.len()
                &&& distinct_inputs(tx@.vin)
                &&& forall|i: int|
                    0 <= i < tx@.vin.len() ==> {
                        &&& (#[trigger] tx@.vin[i]).pub_key == wallet.public_key@
                        &&& tx@.vin[i].signature.len() == SIGNATURE_LEN
                        &&& crate::utxoset::taken_from(
                            bc@,
                            own_hash,
                            bc@.len() as int,
                            (tx@.vin[i].txid, tx@.vin[i].vout),
                        )
                    }
                &&& unsigned.signatures_accepted(
                    tx@,
                    wallet.secret_key@,
                    chain_transactions(bc.ledger()),
                )
            },
            r matches Err(e) ==> e != ChainError::MissingPrevOutput,
            r matches Err(e) ==> (e == ChainError::MissingPrevTransaction ==> exists|i: int|
                0 <= i < spendable(bc@, pub_key_hash_spec(wallet.public_key@), amount).1.len() && (
                #[trigger] spendable(
                    bc@,
                    pub_key_hash_spec(wallet.public_key@),
                    amount,
                ).1[i]).0.len() == 0),
            (r matches Err(e) && e == ChainError::InsufficientFunds)
                <==> crate::utxoset::balance_spec(bc@, pub_key_hash_spec(wallet.public_key@))
                < amount,
            wallet.wf() ==> (r matches Ok(tx) ==> tx@.verify_spec(
                chain_transactions(bc.ledger()),
            ) == Ok::<bool, ChainError>(true)),
    {
        let mut pub_key_hash = wallet.public_key.clone();
        hash_pub_key(&mut pub_key_hash);
        let (accumulated, taken) = bc.find_spendable_outputs(pub_key_hash.as_slice(), amount);
        if accumulated < amount as i128 {
            return Err(ChainError::InsufficientFunds);
        }
        let mut vin: Vec<TXInput> = Vec::new();
        let mut i: usize = 0;
        while i < taken.len()
            invariant
                i <= taken@.len(),
                vin@.len() == i,
                forall|k: int|
                    0 <= k < i ==> (#[trigger] vin@[k])@ == (TXInputView {
                        txid: taken@[k].0@,
                        vout: taken@[k].1,
                        signature: Seq::empty(),
                        pub_key: wallet.public_key@,
                    }),
            decreases taken@.len() - i,
        {
            vin.push(
                TXInput {
                    txid: taken[i].0.clone(),
                    vout: taken[i].1,
                    signature: Vec::new(),
                    pub_key: wallet.public_key.clone(),
                },
            );
            i += 1;
        }
        let first = match TXOutput::new(amount as u32, String::from_str(to)) {
            Ok(output) => output,
            Err(e) => {
                return Err(e);
            },
        };
        let mut vout: Vec<TXOutput> = Vec::new();
        vout.push(first);
        if accumulated > amount as i128 {
            let rest = (accumulated - amount as i128) as u32;
            match TXOutput::new(rest, wallet.get_address()) {
                Ok(output) => {
                    vout.push(output);
                },
                Err(e) => {
                    assert(false);
                    return Err(e);
                },
            }
        }
        let mut tx = Transaction { id: String::new(), vin, vout };
        let ghost own_hash = pub_key_hash_spec(wallet.public_key@);
        let ghost prev = chain_transactions(bc.ledger());
        let ghost refs = ref_views(taken@);
        let ghost body = spend_body(
            bc@,
            wallet.public_key@,
            decode_spec(to@).unwrap(),
            amount,
        );
        proof {
            assert forall|k: int| 0 <= k < taken@.len() implies (#[trigger] ref_views(taken@)[k])
                == (taken@[k].0@, taken@[k].1) by {}
            assert(tx@.vin =~= body.vin);
            assert(tx@.vout =~= body.vout);
        }
        match tx.hash() {
            Ok(id) => {
                tx.id = id;
            },
            Err(e) => {
                return Err(e);
            },
        }
        let ghost unsigned = tx@;
        proof {
            assert(unsigned == spend_unsigned(
                bc@,
                wallet.public_key@,
                decode_spec(to@).unwrap(),
                amount,
            ));
            assert(unsigned.vin.len() == refs.len());
            assert forall|i: int| 0 <= i < unsigned.vin.len() implies {
                &&& (#[trigger] unsigned.vin[i]).txid == refs[i].0
                &&& unsigned.vin[i].vout == refs[i].1
                &&& unsigned.vin[i].pub_key == wallet.public_key@
                &&& crate::utxoset::taken_from(
                    bc@,
                    own_hash,
                    bc@.len() as int,
                    (unsigned.vin[i].txid, unsigned.vin[i].vout),
                )
                &&& unsigned.vin[i].vout >= 0
                &&& (unsigned.vin[i].txid.len() > 0 ==> !prev_tx_missing(prev, unsigned.vin[i]))
                &&& !prev_output_missing(prev, unsigned.vin[i])
            } by {
                assert(crate::utxoset::taken_from(bc@, own_hash, bc@.len() as int, refs[i]));
                let k = choose|k: int|
                    0 <= k < bc@.len() && k < bc@.len() && (#[trigger] bc@[k]).txid == refs[i].0
                        && bc@[k].index == refs[i].1 && bc@[k].output.pub_key_hash == own_hash;
                lemma_listed_is_found(prev, bc@[k], unsigned.vin[i]);
            }
            assert(!unsigned.is_coinbase());
            assert(distinct_inputs(unsigned.vin)) by {
                assert forall|a: int, b: int| 0 <= a < b < unsigned.vin.len() implies !((
                #[trigger] unsigned.vin[a]).txid == (#[trigger] unsigned.vin[b]).txid
                    && unsigned.vin[a].vout == unsigned.vin[b].vout) by {
                    assert(refs[a] != refs[b]);
                }
            }
            assert(!unsigned.any_prev_output_missing(prev));
            if unsigned.any_prev_tx_missing(prev) {
                let w = choose|w: int|
                    0 <= w < unsigned.vin.len() && prev_tx_missing(prev, #[trigger] unsigned.vin[w]);
                assert(refs[w].0.len() == 0);
            }
            if wallet.wf() {
                assert(is_keypair(wallet.secret_key@, wallet.public_key@));
                assert(unsigned.all_inputs_carry(wallet.public_key@));
            }
        }
        match bc.blockchain().sign_transaction(&mut tx, wallet.secret_key.as_slice()) {
            Ok(()) => {
                proof {
                    assert(unsigned.signed_as(tx@, wallet.secret_key@, prev));
                    assert(unsigned.signatures_accepted(tx@, wallet.secret_key@, prev));
                    assert forall|i: int| 0 <= i < tx@.vin.len() implies {
                        &&& (#[trigger] tx@.vin[i]).txid == unsigned.vin[i].txid
                        &&& tx@.vin[i].vout == unsigned.vin[i].vout
                        &&& tx@.vin[i].pub_key == unsigned.vin[i].pub_key
                        &&& tx@.vin[i].signature.len() == SIGNATURE_LEN
                    } by {}
                    assert(distinct_inputs(tx@.vin)) by {
                        assert forall|a: int, b: int| 0 <= a < b < tx@.vin.len() implies !((
                        #[trigger] tx@.vin[a]).txid == (#[trigger] tx@.vin[b]).txid
                            && tx@.vin[a].vout == tx@.vin[b].vout) by {
                            assert(unsigned.vin[a].txid == tx@.vin[a].txid);
                            assert(unsigned.vin[b].txid == tx@.vin[b].txid);
                        }
                    }
                }
                Ok(tx)
            },
            Err(e) => Err(e),
        }
    }

    /// The coinbase transaction that pays the subsidy to `to`. Its single
    /// input carries `data` as its public key, or the default reward text
    /// when `data` is empty.
    pub fn new_coinbase(to: String, data: String) -> (r: Result<Transaction, ChainError>)
        ensures
            match decode_spec(to@) {
                None => r matches Err(e) && e == ChainError::CorruptAddress,
                Some(key_hash) => {
                    let body = coinbase_body(key_hash, coinbase_memo(to@, data@));
                    match body.digest() {
                        None => r matches Err(e) && e == ChainError::Serialization,
                        Some(d) => r matches Ok(tx) && tx@ == body.with_id(d)
                            && tx@.is_coinbase(),
                    }
                },
            },
    {
        let mut data = data;
        let ghost given = data@;
        if data.as_str().is_empty() {
            let mut memo = String::from_str("Reward to '");
            memo.append(to.as_str());
            memo.append("'");
            data = memo;
        }
        let ghost to_view = to@;
        let output = match TXOutput::new(SUBSIDY, to) {
            Ok(output) => output,
            Err(e) => {
                return Err(e);
            },
        };
        let input = TXInput {
            txid: String::new(),
            vout: -1,
            signature: Vec::new(),
            pub_key: data.as_str().as_bytes_vec(),
        };
        let mut vin: Vec<TXInput> = Vec::new();
        vin.push(input);
        let mut vout: Vec<TXOutput> = Vec::new();
        vout.push(output);
        let mut tx = Transaction { id: String::new(), vin, vout };
        proof {
            let body = coinbase_body(decode_spec(to_view).unwrap(), coinbase_memo(to_view, given));
            assert(tx@.vin =~= body.vin);
            assert(tx@.vout =~= body.vout);
        }
        match tx.hash() {
            Ok(id) => {
                tx.id = id;
                Ok(tx)
            },
            Err(e) => Err(e),
        }
    }

    /// Verifies the signature of every input against the key hash of the
    /// output it spends, looked up in `prev_txs` by transaction id. A
    /// coinbase transaction needs no signature.
    pub fn verify(&self, prev_txs: Vec<Transaction>) -> (r: Result<bool, ChainError>)
        ensures
            r == self@.verify_spec(transaction_views(prev_txs@)),
            self@.is_coinbase() ==> r == Ok::<bool, ChainError>(true),
    {
        if self.is_coinbase() {
            return Ok(true);
        }
        let ghost prev = transaction_views(prev_txs@);
        match check_prev(self, &prev_txs) {
            Ok(()) => {},
            Err(e) => {
                return Err(e);
            },
        }
        let mut tx_copy = self.trim_copy();
        let n = self.vin.len();
        let mut i: usize = 0;
        while i < n
            invariant
                n == self.vin@.len(),
                i <= n,
                prev == transaction_views(prev_txs@),
                tx_copy@ == self@.trimmed(),
                !self@.any_prev_tx_missing(prev),
                !self@.any_prev_output_missing(prev),
                self@.verify_from(prev, 0) == self@.verify_from(prev, i as int),
            decreases n - i,
        {
            let payload = match payload_for(self, &mut tx_copy, &prev_txs, i) {
                Ok(payload) => payload,
                Err(e) => {
                    return Err(e);
                },
            };
            let input = &self.vin[i];
            if input.pub_key.len() < PUBLIC_KEY_LEN || input.signature.len() < SIGNATURE_LEN {
                return Ok(false);
            }
            if !ed25519_verify(
                payload.as_str().as_bytes(),
                input.pub_key.as_slice(),
                input.signature.as_slice(),
            ) {
                return Ok(false);
            }
            i += 1;
        }
        Ok(true)
    }

    /// Signs every input with `private_key`, each over its own signing
    /// payload. A coinbase transaction is left as it is, and so is the
    /// transaction whenever an error is reported. A key of fewer than 64
    /// bytes is reported where signatures are to be made: not for a coinbase
    /// transaction, nor for one without inputs.
    pub fn sign(&mut self, private_key: &[u8], prev_txs: Vec<Transaction>) -> (r: Result<
        (),
        ChainError,
    >)
        ensures
            old(self)@.sign_result(
                final(self)@,
                private_key@,
                transaction_views(prev_txs@),
                r,
            ),
            r is Ok && !old(self)@.is_coinbase() ==> old(self)@.signatures_accepted(
                final(self)@,
                private_key@,
                transaction_views(prev_txs@),
            ),
            forall|public_key: Seq<u8>|
                r is Ok && !old(self)@.is_coinbase() && public_key.len() == PUBLIC_KEY_LEN
                    && #[trigger] is_keypair(private_key@, public_key) && old(
                    self,
                )@.all_inputs_carry(public_key) ==> final(self)@.verify_spec(
                    transaction_views(prev_txs@),
                ) == Ok::<bool, ChainError>(true),
    {
        if self.is_coinbase() {
            return Ok(());
        }
        let ghost prev = transaction_views(prev_txs@);
        let ghost before = self@;
        match check_prev(self, &prev_txs) {
            Ok(()) => {},
            Err(e) => {
                return Err(e);
            },
        }
        let n = self.vin.len();
        if n > 0 && private_key.len() < SECRET_KEY_LEN {
            return Err(ChainError::InvalidKey);
        }
        let mut tx_copy = self.trim_copy();
        let mut signatures: Vec<Vec<u8>> = Vec::new();
        let mut i: usize = 0;
        while i < n
            invariant
                n == self.vin@.len(),
                i <= n,
                self@ == before,
                n > 0 ==> private_key@.len() >= SECRET_KEY_LEN,
                !before.is_coinbase(),
                prev == transaction_views(prev_txs@),
                tx_copy@ == before.trimmed(),
                !before.any_prev_tx_missing(prev),
                !before.any_prev_output_missing(prev),
                signatures@.len() == i,
                forall|k: int|
                    0 <= k < i ==> {
                        &&& #[trigger] before.signing_payload(prev, k) is Some
                        &&& signatures@[k]@ == spec_ed25519_signature(
                            encode_utf8(before.signing_payload(prev, k).unwrap()),
                            private_key@,
                        )
                        &&& signatures@[k]@.len() == SIGNATURE_LEN
                        &&& accepted_under_pairs(
                            encode_utf8(before.signing_payload(prev, k).unwrap()),
                            private_key@,
                            signatures@[k]@,
                        )
                    },
            decreases n - i,
        {
            let payload = match payload_for(self, &mut tx_copy, &prev_txs, i) {
                Ok(payload) => payload,
                Err(e) => {
                    return Err(e);
                },
            };
            let signature = ed25519_signature(payload.as_str().as_bytes(), private_key);
            signatures.push(signature);
            i += 1;
        }
        let mut j: usize = 0;
        while j < n
            invariant
                n == before.vin.len(),
                n == self.vin@.len(),
                n == signatures@.len(),
                j <= n,
                self@.id == before.id,
                self@.vout == before.vout,
                forall|k: int| j <= k < n ==> (#[trigger] self@.vin[k]) == before.vin[k],
                forall|k: int|
                    0 <= k < j ==> (#[trigger] self@.vin[k]) == (TXInputView {
                        txid: before.vin[k].txid,
                        vout: before.vin[k].vout,
                        signature: signatures@[k]@,
                        pub_key: before.vin[k].pub_key,
                    }),
            decreases n - j,
        {
            let ghost last = self@;
            let ghost last_vin = self.vin@;
            let signature = signatures[j].clone();
            set_signature(&mut self.vin, j, signature);
            assert forall|k: int| 0 <= k < n && k != j implies (#[trigger] self@.vin[k])
                == last.vin[k] by {}
            assert(last.vin[j as int] == last_vin[j as int]@);
            j += 1;
        }
        proof {
            assert forall|public_key: Seq<u8>|
                public_key.len() == PUBLIC_KEY_LEN && #[trigger] is_keypair(
                    private_key@,
                    public_key,
                ) && before.all_inputs_carry(public_key) implies self@.verify_spec(prev) == Ok::<
                bool,
                ChainError,
            >(true) by {
                lemma_signed_transaction_verifies(before, self@, private_key@, public_key, prev);
            }
        }
        Ok(())
    }
}

/// A coinbase transaction verifies, whatever the previous transactions.
pub proof fn lemma_coinbase_verifies(tx: TransactionView, prev: Seq<TransactionView>)
    requires
        tx.is_coinbase(),
    ensures
        tx.verify_spec(prev) == Ok::<bool, ChainError>(true),
{
}

/// A transaction signed with the secret half of a key pair, whose inputs all
/// carry the public half, verifies against the previous transactions it was
/// signed against.
pub proof fn lemma_signed_transaction_verifies(
    before: TransactionView,
    signed: TransactionView,
    secret_key: Seq<u8>,
    public_key: Seq<u8>,
    prev: Seq<TransactionView>,
)
    requires
        !before.is_coinbase(),
        before.sign_result(signed, secret_key, prev, Ok(())),
        before.signatures_accepted(signed, secret_key, prev),
        public_key.len() == PUBLIC_KEY_LEN,
        is_keypair(secret_key, public_key),
        before.all_inputs_carry(public_key),
    ensures
        signed.verify_spec(prev) == Ok::<bool, ChainError>(true),
{
    let n = before.vin.len() as int;
    let seed = choose|seed: Seq<u8>|
        seed.len() == SEED_LEN && #[trigger] spec_ed25519_keypair(seed) == (secret_key, public_key);
    assert(signed.trimmed().vin =~= before.trimmed().vin);
    assert forall|k: int| 0 <= k < n implies #[trigger] signed.input_verifies(prev, k) by {
        assert(accepted_under_pairs(
            encode_utf8(before.signing_payload(prev, k).unwrap()),
            secret_key,
            signed.vin[k].signature,
        ));
    }
    assert(!signed.any_prev_tx_missing(prev)) by {
        if signed.any_prev_tx_missing(prev) {
            let w = choose|w: int|
                0 <= w < signed.vin.len() && prev_tx_missing(prev, #[trigger] signed.vin[w]);
        }
    }
    assert(!signed.any_prev_output_missing(prev)) by {
        if signed.any_prev_output_missing(prev) {
            let w = choose|w: int|
                0 <= w < signed.vin.len() && prev_output_missing(prev, #[trigger] signed.vin[w]);
        }
    }
    lemma_all_inputs_verify(signed, prev, 0);
}

/// Where every input from `i` on verifies, checking them in order ends in
/// `true`.
pub proof fn lemma_all_inputs_verify(tx: TransactionView, prev: Seq<TransactionView>, i: int)
    requires
        0 <= i <= tx.vin.len(),
        forall|k: int| i <= k < tx.vin.len() ==> #[trigger] tx.input_verifies(prev, k),
    ensures
        tx.verify_from(prev, i) == Ok::<bool, ChainError>(true),
    decreases tx.vin.len() - i,
{
    if i < tx.vin.len() {
        lemma_all_inputs_verify(tx, prev, i + 1);
    }
}

/// Replaces the signature of input `i`.
fn set_signature(vin: &mut Vec<TXInput>, i: usize, signature: Vec<u8>)
    requires
        i < old(vin)@.len(),
    ensures
        final(vin)@.len() == old(vin)@.len(),
        forall|k: int| 0 <= k < old(vin)@.len() && k != i ==> final(vin)@[k] == old(vin)@[k],
        final(vin)@[i as int]@ == (TXInputView {
            txid: old(vin)@[i as int]@.txid,
            vout: old(vin)@[i as int]@.vout,
            signature: signature@,
            pub_key: old(vin)@[i as int]@.pub_key,
        }),
{
    vin[i].signature = signature;
}

/// The place in `prev_txs` of the first transaction that carries `txid`.
pub fn find_tx(prev_txs: &Vec<Transaction>, txid: &String) -> (r: Option<usize>)
    ensures
        match r {
            Some(k) => is_first_tx(transaction_views(prev_txs@), txid@, k as int) && k
                == first_tx(transaction_views(prev_txs@), txid@),
            None => !has_tx(transaction_views(prev_txs@), txid@),
        },
{
    let ghost prev = transaction_views(prev_txs@);
    let mut k: usize = 0;
    while k < prev_txs.len()
        invariant
            k <= prev_txs@.len(),
            prev == transaction_views(prev_txs@),
            forall|j: int| 0 <= j < k ==> (#[trigger] prev[j]).id != txid@,
        decreases prev_txs@.len() - k,
    {
        if prev_txs[k].id == *txid {
            assert(is_first_tx(prev, txid@, k as int));
            return Some(k);
        }
        k += 1;
    }
    None
}

/// Checks that every input of `tx` refers to a transaction of `prev_txs`
/// and to an output which that transaction has.
fn check_prev(tx: &Transaction, prev_txs: &Vec<Transaction>) -> (r: Result<(), ChainError>)
    ensures
        ({
            let prev = transaction_views(prev_txs@);
            if tx@.any_prev_tx_missing(prev) {
                r == Err::<(), ChainError>(ChainError::MissingPrevTransaction)
            } else if tx@.any_prev_output_missing(prev) {
                r == Err::<(), ChainError>(ChainError::MissingPrevOutput)
            } else {
                r is Ok
            }
        }),
{
    let ghost prev = transaction_views(prev_txs@);
    let n = tx.vin.len();
    let mut i: usize = 0;
    while i < n
        invariant
            n == tx.vin@.len(),
            i <= n,
            prev == transaction_views(prev_txs@),
            forall|k: int| 0 <= k < i ==> !prev_tx_missing(prev, #[trigger] tx@.vin[k]),
        decreases n - i,
    {
        let input = &tx.vin[i];
        if input.txid.as_str().is_empty() {
            assert(prev_tx_missing(prev, tx@.vin[i as int]));
            return Err(ChainError::MissingPrevTransaction);
        }
        match find_tx(prev_txs, &input.txid) {
            Some(_) => {},
            None => {
                assert(prev_tx_missing(prev, tx@.vin[i as int]));
                return Err(ChainError::MissingPrevTransaction);
            },
        }
        i += 1;
    }
    let mut j: usize = 0;
    while j < n
        invariant
            n == tx.vin@.len(),
            j <= n,
            prev == transaction_views(prev_txs@),
            !tx@.any_prev_tx_missing(prev),
            forall|k: int| 0 <= k < j ==> !prev_output_missing(prev, #[trigger] tx@.vin[k]),
        decreases n - j,
    {
        let input = &tx.vin[j];
        assert(!prev_tx_missing(prev, tx@.vin[j as int]));
        match find_tx(prev_txs, &input.txid) {
            Some(k) => {
                if input.vout < 0 || input.vout as usize >= prev_txs[k].vout.len() {
                    return Err(ChainError::MissingPrevOutput);
                }
            },
            None => {
                assert(false);
            },
        }
        j += 1;
    }
    Ok(())
}

/// The signing payload of input `i`, computed on the trimmed copy, which is
/// handed back as it came.
fn payload_for(
    tx: &Transaction,
    tx_copy: &mut Transaction,
    prev_txs: &Vec<Transaction>,
    i: usize,
) -> (r: Result<String, ChainError>)
    requires
        i < tx.vin@.len(),
        old(tx_copy)@ == tx@.trimmed(),
        !tx@.any_prev_tx_missing(transaction_views(prev_txs@)),
        !tx@.any_prev_output_missing(transaction_views(prev_txs@)),
    ensures
        final(tx_copy)@ == old(tx_copy)@,
        match tx@.signing_payload(transaction_views(prev_txs@), i as int) {
            Some(payload) => r matches Ok(text) && text@ == payload,
            None => r == Err::<String, ChainError>(ChainError::Serialization),
        },
{
    let ghost trimmed = tx_copy@;
    let input = &tx.vin[i];
    let k = match find_tx(prev_txs, &input.txid) {
        Some(k) => k,
        None => {
            assert(false);
            0
        },
    };
    assert(tx@.trimmed().vin.len() == tx.vin@.len());
    let key_hash = prev_txs[k].vout[input.vout as usize].pub_key_hash.clone();
    set_pub_key(&mut tx_copy.vin, i, key_hash);
    assert(tx_copy@.vin =~= trimmed.with_input_key(i as int, key_hash@).vin);
    let digest = tx_copy.hash();
    set_pub_key(&mut tx_copy.vin, i, Vec::new());
    assert(tx_copy@.vin =~= trimmed.vin);
    digest
}

/// Replaces the public key of input `i`.
fn set_pub_key(vin: &mut Vec<TXInput>, i: usize, pub_key: Vec<u8>)
    requires
        i < old(vin)@.len(),
    ensures
        final(vin)@.len() == old(vin)@.len(),
        forall|k: int| 0 <= k < old(vin)@.len() && k != i ==> final(vin)@[k] == old(vin)@[k],
        final(vin)@[i as int]@ == (TXInputView {
            txid: old(vin)@[i as int]@.txid,
            vout: old(vin)@[i as int]@.vout,
            signature: old(vin)@[i as int]@.signature,
            pub_key: pub_key@,
        }),
{
    vin[i].pub_key = pub_key;
}

} // verus!
