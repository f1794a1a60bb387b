use vstd::prelude::*;
use vstd::string::StrSliceExecFns;

use crate::clock::current_millis;
use crate::encoding::encode_header;
use crate::encoding::spec_header_encoding;
use crate::errors::ChainError;
use crate::hashing::has_leading_zeros;
use crate::hashing::hex_lower;
use crate::hashing::merkle_root;
use crate::hashing::merkle_root_spec;
use crate::hashing::sha256_hex;
use crate::hashing::spec_sha256;
use crate::transaction::Transaction;
use crate::transaction::TransactionView;
use crate::transaction::transaction_views;

verus! {

/// The difficulty target: how many leading hexadecimal zeros a block's hash
/// must carry.
pub const TARGET_HEXT: usize = 4;

/// A mined batch of transactions, linked to the block before it.
#[derive(Debug)]
pub struct Block {
    timestamp: u128,
    transactions: Vec<Transaction>,
    prev_block_hash: String,
    hash: String,
    height: i32,
    nonce: i32,
}

/// What a `Block` holds, as mathematical values.
pub struct BlockView {
    pub timestamp: u128,
    pub transactions: Seq<TransactionView>,
    pub prev_block_hash: Seq<char>,
    pub hash: Seq<char>,
    pub height: i32,
    pub nonce: i32,
}

impl View for Block {
    type V = BlockView;

    closed spec fn view(&self) -> BlockView {
        BlockView {
            timestamp: self.timestamp,
            transactions: transaction_views(self.transactions@),
            prev_block_hash: self.prev_block_hash@,
            hash: self.hash@,
            height: self.height,
            nonce: self.nonce,
        }
    }
}

/// Every transaction of `txs` has a digest.
pub open spec fn all_digests_exist(txs: Seq<TransactionView>) -> bool {
    forall|i: int| 0 <= i < txs.len() ==> (#[trigger] txs[i]).digest_bytes() is Some
}

/// The Merkle leaves of a batch: each transaction's digest, in the batch's
/// order.
pub open spec fn merkle_leaves(txs: Seq<TransactionView>) -> Seq<Seq<u8>> {
    Seq::new(txs.len(), |i: int| txs[i].digest_bytes().unwrap())
}

/// The Merkle root that commits to a batch; `None` where some transaction
/// has no digest.
pub open spec fn transactions_root(txs: Seq<TransactionView>) -> Option<Seq<u8>> {
    if all_digests_exist(txs) {
        Some(merkle_root_spec(merkle_leaves(txs)))
    } else {
        None
    }
}

/// The hash text that a header gives with `nonce`: the SHA-256 digest, in
/// hexadecimal, of the canonical encoding of previous hash, Merkle root,
/// timestamp, target and nonce. `None` where the header has no encoding.
pub open spec fn header_hash(prev_hash: Seq<char>, root: Seq<u8>, timestamp: u128, nonce: i32)
    -> Option<Seq<char>> {
    match spec_header_encoding(prev_hash, root, timestamp, TARGET_HEXT, nonce) {
        Some(bytes) => Some(hex_lower(spec_sha256(bytes))),
        None => None,
    }
}

/// The text starts with as many `'0'` characters as the target asks.
pub open spec fn meets_target(hash: Seq<char>) -> bool {
    has_leading_zeros(hash, TARGET_HEXT as int)
}

/// Every nonce from 0 up to, not including, `n` gives a hash, and none of
/// those hashes meets the target.
pub open spec fn misses_before(prev_hash: Seq<char>, root: Seq<u8>, timestamp: u128, n: int)
    -> bool {
    forall|m: int|
        0 <= m < n && m <= i32::MAX ==> {
            &&& (#[trigger] header_hash(prev_hash, root, timestamp, m as i32)) is Some
            &&& !meets_target(header_hash(prev_hash, root, timestamp, m as i32).unwrap())
        }
}

impl BlockView {
    /// The hash text that the block's own fields give; `None` where a
    /// transaction or the header has no encoding.
    pub open spec fn computed_hash(self) -> Option<Seq<char>> {
        match transactions_root(self.transactions) {
            Some(root) => header_hash(self.prev_block_hash, root, self.timestamp, self.nonce),
            None => None,
        }
    }

    /// The block's hash is the one its fields give, a text of 64
    /// hexadecimal digits, and it meets the target.
    pub open spec fn is_mined(self) -> bool {
        self.computed_hash() == Some(self.hash) && self.hash.len() == 64 && meets_target(
            self.hash,
        )
    }

    /// The block is the outcome of mining the given batch on the given
    /// parent at the given time: it holds them unchanged, it is mined, and
    /// its nonce is the least one whose hash meets the target.
    pub open spec fn mined_from(
        self,
        txs: Seq<TransactionView>,
        prev_hash: Seq<char>,
        height: i32,
        timestamp: u128,
    ) -> bool {
        &&& self.transactions == txs
        &&& self.prev_block_hash == prev_hash
        &&& self.height == height
        &&& self.timestamp == timestamp
        &&& self.nonce >= 0
        &&& self.is_mined()
        &&& transactions_root(txs) is Some
        &&& misses_before(prev_hash, transactions_root(txs).unwrap(), timestamp, self.nonce as int)
    }
}

/// The hash of a mined block is the one that its fields give, and its text
/// of 64 characters starts with four `'0'` characters.
pub proof fn lemma_mined_hash(block: BlockView)
    requires
        block.is_mined(),
    ensures
        block.computed_hash() == Some(block.hash),
        block.hash.len() == 64,
        block.hash[0] == '0' && block.hash[1] == '0' && block.hash[2] == '0' && block.hash[3]
            == '0',
{
}

/// Why mining the given batch on the given parent at the given time fails
/// with `e`: an encoding is missing before any nonce meets the target, or
/// the whole range of nonces was tried in vain.
pub open spec fn mining_fails(
    txs: Seq<TransactionView>,
    prev_hash: Seq<char>,
    timestamp: u128,
    e: ChainError,
) -> bool {
    match transactions_root(txs) {
        None => e == ChainError::Serialization,
        Some(root) => {
            ||| e == ChainError::Serialization && exists|n: int|
                0 <= n <= i32::MAX && misses_before(prev_hash, root, timestamp, n)
                    && (#[trigger] header_hash(prev_hash, root, timestamp, n as i32)) is None
            ||| e == ChainError::NonceExhausted && misses_before(
                prev_hash,
                root,
                timestamp,
                i32::MAX + 1,
            )
        },
    }
}

/// Mining has one outcome: two blocks mined from the same batch on the same
/// parent at the same time are the same block.
pub proof fn lemma_mining_is_determined(
    a: BlockView,
    b: BlockView,
    txs: Seq<TransactionView>,
    prev_hash: Seq<char>,
    height: i32,
    timestamp: u128,
)
    requires
        a.mined_from(txs, prev_hash, height, timestamp),
        b.mined_from(txs, prev_hash, height, timestamp),
    ensures
        a == b,
{
    let root = transactions_root(txs).unwrap();
    if a.nonce < b.nonce {
        assert(header_hash(prev_hash, root, timestamp, a.nonce as int as i32) == Some(a.hash));
    }
    if b.nonce < a.nonce {
        assert(header_hash(prev_hash, root, timestamp, b.nonce as int as i32) == Some(b.hash));
    }
}

/// Mining does not both succeed and fail: where a block is the outcome of
/// mining, no error is.
pub proof fn lemma_mined_excludes_failure(
    block: BlockView,
    txs: Seq<TransactionView>,
    prev_hash: Seq<char>,
    height: i32,
    timestamp: u128,
    e: ChainError,
)
    requires
        block.mined_from(txs, prev_hash, height, timestamp),
    ensures
        !mining_fails(txs, prev_hash, timestamp, e),
{
    let root = transactions_root(txs).unwrap();
    assert(header_hash(prev_hash, root, timestamp, block.nonce as int as i32) == Some(block.hash));
    if mining_fails(txs, prev_hash, timestamp, e) {
        if e == ChainError::Serialization {
            let n = choose|n: int|
                0 <= n <= i32::MAX && misses_before(prev_hash, root, timestamp, n) && (
                #[trigger] header_hash(prev_hash, root, timestamp, n as i32)) is None;
            if n < block.nonce {
                assert(header_hash(prev_hash, root, timestamp, n as i32) is Some);
            }
        }
    }
}

/// Whether the text starts with as many zeros as the target asks.
pub fn hash_meets_target(hash: &String) -> (r: bool)
    ensures
        r == meets_target(hash@),
{
    let text = hash.as_str();
    if text.unicode_len() < TARGET_HEXT {
        return false;
    }
    let mut i: usize = 0;
    while i < TARGET_HEXT
        invariant
            i <= TARGET_HEXT,
            text@ == hash@,
            text@.len() >= TARGET_HEXT,
            forall|k: int| 0 <= k < i ==> text@[k] == '0',
        decreases TARGET_HEXT - i,
    {
        if text.get_char(i) != '0' {
            return false;
        }
        i += 1;
    }
    true
}

/// The Merkle root over the digests of a batch of transactions. The root of
/// a single transaction is its digest; every root but that of the empty
/// batch has 32 bytes.
pub fn hash_batch(txs: &Vec<Transaction>) -> (r: Result<Vec<u8>, ChainError>)
    ensures
        match transactions_root(transaction_views(txs@)) {
            Some(root) => r matches Ok(bytes) && bytes@ == root,
            None => r == Err::<Vec<u8>, ChainError>(ChainError::Serialization),
        },
        r matches Ok(bytes) ==> bytes@.len() == (if txs@.len() == 0 {
            0int
        } else {
            32int
        }),
        r matches Ok(bytes) ==> (txs@.len() == 1 ==> Some(bytes@) == txs@[0]@.digest_bytes()),
{
    let ghost views = transaction_views(txs@);
    let mut leaves: Vec<Vec<u8>> = Vec::new();
    let mut i: usize = 0;
    while i < txs.len()
        invariant
            i <= txs@.len(),
            views == transaction_views(txs@),
            leaves@.len() == i,
            forall|k: int| 0 <= k < i ==> (#[trigger] views[k]).digest_bytes() is Some,
            forall|k: int|
                0 <= k < i ==> (#[trigger] leaves@[k])@ == views[k].digest_bytes().unwrap()
                    && leaves@[k]@.len() == 32,
        decreases txs@.len() - i,
    {
        assert(views[i as int] == txs@[i as int]@);
        match txs[i].hash_bytes() {
            Ok(leaf) => {
                leaves.push(leaf);
            },
            Err(e) => {
                assert(views[i as int].digest_bytes() is None);
                return Err(e);
            },
        }
        i += 1;
    }
    assert(txs@.len() > 0 ==> views[0] == txs@[0]@);
    assert(crate::hashing::byte_views(leaves@) =~= merkle_leaves(views));
    Ok(merkle_root(&leaves))
}

impl Block {
    /// The block's height: 0 for the genesis block.
    pub fn get_height(&self) -> (r: i32)
        ensures
            r == self@.height,
    {
        self.height
    }

    /// The block's transactions, in order.
    pub fn get_transaction(&self) -> (r: &Vec<Transaction>)
        ensures
            transaction_views(r@) == self@.transactions,
    {
        &self.transactions
    }

    /// The hash of the block before this one; empty for the genesis block.
    pub fn get_prev_hash(&self) -> (r: String)
        ensures
            r@ == self@.prev_block_hash,
    {
        self.prev_block_hash.clone()
    }

    /// The block's hash.
    pub fn get_hash(&self) -> (r: String)
        ensures
            r@ == self@.hash,
    {
        self.hash.clone()
    }

    /// The time the block was mined at, in milliseconds since the epoch.
    pub fn get_timestamp(&self) -> (r: u128)
        ensures
            r == self@.timestamp,
    {
        self.timestamp
    }

    /// The nonce that mining settled on.
    pub fn get_nonce(&self) -> (r: i32)
        ensures
            r == self@.nonce,
    {
        self.nonce
    }

    /// A block made of the given fields as they are. Nothing is checked:
    /// `check` tells whether such a block is mined.
    pub fn from_parts(
        timestamp: u128,
        transactions: Vec<Transaction>,
        prev_block_hash: String,
        hash: String,
        height: i32,
        nonce: i32,
    ) -> (r: Block)
        ensures
            r@ == (BlockView {
                timestamp,
                transactions: transaction_views(transactions@),
                prev_block_hash: prev_block_hash@,
                hash: hash@,
                height,
                nonce,
            }),
    {
        Block { timestamp, transactions, prev_block_hash, hash, height, nonce }
    }

    /// Mines the genesis block, which holds the coinbase transaction alone,
    /// has no parent and stands at height 0, stamped with the system clock's
    /// time. An error is `Clock`, or the error that mining at the time read
    /// fails with.
    pub fn new_genesis_block(coinbase: Transaction) -> (r: Result<Block, ChainError>)
        ensures
            r matches Ok(b) ==> b@.mined_from(seq![coinbase@], Seq::empty(), 0, b@.timestamp),
            r matches Err(e) ==> e == ChainError::Clock || exists|timestamp: u128| #[trigger]
                mining_fails(seq![coinbase@], Seq::empty(), timestamp, e),
    {
        let mut data: Vec<Transaction> = Vec::new();
        data.push(coinbase);
        assert(transaction_views(data@) =~= seq![coinbase@]);
        Block::new_block(data, String::new(), 0)
    }

    /// Mines a block over `data` on the parent with hash `prev_block_hash`,
    /// stamped with the system clock's time. An error is `Clock`, or the
    /// error that mining at the time read fails with.
    pub fn new_block(data: Vec<Transaction>, prev_block_hash: String, height: i32) -> (r: Result<
        Block,
        ChainError,
    >)
        ensures
            r matches Ok(b) ==> b@.mined_from(
                transaction_views(data@),
                prev_block_hash@,
                height,
                b@.timestamp,
            ),
            r matches Err(e) ==> e == ChainError::Clock || exists|timestamp: u128| #[trigger]
                mining_fails(transaction_views(data@), prev_block_hash@, timestamp, e),
    {
        let timestamp = match current_millis() {
            Ok(t) => t,
            Err(e) => {
                return Err(e);
            },
        };
        let ghost txs = transaction_views(data@);
        let ghost parent = prev_block_hash@;
        let r = Block::mine(data, prev_block_hash, height, timestamp);
        proof {
            if let Err(e) = r {
                assert(mining_fails(txs, parent, timestamp, e));
            }
        }
        r
    }

    /// Mines a block over `data` on the parent with hash `prev_block_hash`,
    /// stamped with `timestamp`: the nonce is the least one, from 0 up, whose
    /// hash meets the target.
    pub fn mine(data: Vec<Transaction>, prev_block_hash: String, height: i32, timestamp: u128) -> (r:
        Result<Block, ChainError>)
        ensures
            r matches Ok(b) ==> b@.mined_from(
                transaction_views(data@),
                prev_block_hash@,
                height,
                timestamp,
            ),
            r matches Err(e) ==> mining_fails(
                transaction_views(data@),
                prev_block_hash@,
                timestamp,
                e,
            ),
    {
        let mut block = Block {
            timestamp,
            transactions: data,
            prev_block_hash,
            hash: String::new(),
            height,
            nonce: 0,
        };
        match block.run_proof_if_work() {
            Ok(()) => Ok(block),
            Err(e) => Err(e),
        }
    }

    /// Searches the nonces from 0 up for the first whose hash meets the
    /// target, and sets the block's nonce and hash to it.
    fn run_proof_if_work(&mut self) -> (r: Result<(), ChainError>)
        requires
            old(self).nonce == 0,
        ensures
            r is Ok ==> final(self)@.mined_from(
                old(self)@.transactions,
                old(self)@.prev_block_hash,
                old(self)@.height,
                old(self)@.timestamp,
            ),
            r matches Err(e) ==> mining_fails(
                old(self)@.transactions,
                old(self)@.prev_block_hash,
                old(self)@.timestamp,
                e,
            ),
    {
        let root = match self.hash_transactions() {
            Ok(root) => root,
            Err(e) => {
                return Err(e);
            },
        };
        let ghost start = self@;
        loop
            invariant
                start == old(self)@,
                self.nonce >= 0,
                self@.transactions == start.transactions,
                self@.prev_block_hash == start.prev_block_hash,
                self@.height == start.height,
                self@.timestamp == start.timestamp,
                transactions_root(start.transactions) == Some(root@),
                misses_before(
                    start.prev_block_hash,
                    root@,
                    start.timestamp,
                    self.nonce as int,
                ),
            decreases i32::MAX - self.nonce,
        {
            let data = match encode_header(
                &self.prev_block_hash,
                &root,
                self.timestamp,
                TARGET_HEXT,
                self.nonce,
            ) {
                Ok(data) => data,
                Err(_) => {
                    assert(header_hash(
                        start.prev_block_hash,
                        root@,
                        start.timestamp,
                        self.nonce as int as i32,
                    ) is None);
                    return Err(ChainError::Serialization);
                },
            };
            let hash = sha256_hex(data.as_slice());
            assert(header_hash(start.prev_block_hash, root@, start.timestamp, self.nonce)
                == Some(hash@));
            if hash_meets_target(&hash) {
                self.hash = hash;
                return Ok(());
            }
            if self.nonce == i32::MAX {
                return Err(ChainError::NonceExhausted);
            }
            self.nonce += 1;
        }
    }

    /// The Merkle root over the digests of the block's transactions. The
    /// root of a single transaction is its digest; every root but that of
    /// the empty batch has 32 bytes.
    pub fn hash_transactions(&self) -> (r: Result<Vec<u8>, ChainError>)
        ensures
            match transactions_root(self@.transactions) {
                Some(root) => r matches Ok(bytes) && bytes@ == root,
                None => r == Err::<Vec<u8>, ChainError>(ChainError::Serialization),
            },
            r matches Ok(bytes) ==> bytes@.len() == (if self@.transactions.len() == 0 {
                0int
            } else {
                32int
            }),
            r matches Ok(bytes) ==> (self@.transactions.len() == 1 ==> Some(bytes@)
                == self@.transactions[0].digest_bytes()),
    {
        hash_batch(&self.transactions)
    }

    /// The bytes that the block's hash is taken over.
    pub fn prepare_hash_data(&self) -> (r: Result<Vec<u8>, ChainError>)
        ensures
            match transactions_root(self@.transactions) {
                Some(root) => match spec_header_encoding(
                    self@.prev_block_hash,
                    root,
                    self@.timestamp,
                    TARGET_HEXT,
                    self@.nonce,
                ) {
                    Some(bytes) => r matches Ok(data) && data@ == bytes,
                    None => r == Err::<Vec<u8>, ChainError>(ChainError::Serialization),
                },
                None => r == Err::<Vec<u8>, ChainError>(ChainError::Serialization),
            },
    {
        let root = match self.hash_transactions() {
            Ok(root) => root,
            Err(e) => {
                return Err(e);
            },
        };
        match encode_header(
            &self.prev_block_hash,
            &root,
            self.timestamp,
            TARGET_HEXT,
            self.nonce,
        ) {
            Ok(data) => Ok(data),
            Err(_) => Err(ChainError::Serialization),
        }
    }

    /// Whether the hash that the block's fields give meets the target.
    pub fn validate(&self) -> (r: Result<bool, ChainError>)
        ensures
            match self@.computed_hash() {
                Some(hash) => r == Ok::<bool, ChainError>(meets_target(hash)),
                None => r == Err::<bool, ChainError>(ChainError::Serialization),
            },
    {
        let data = match self.prepare_hash_data() {
            Ok(data) => data,
            Err(e) => {
                return Err(e);
            },
        };
        let hash = sha256_hex(data.as_slice());
        Ok(hash_meets_target(&hash))
    }

    /// Whether the block is mined: recomputing the hash from the block's
    /// fields gives the hash it carries, and that hash meets the target.
    pub fn check(&self) -> (r: Result<bool, ChainError>)
        ensures
            match self@.computed_hash() {
                Some(hash) => r == Ok::<bool, ChainError>(self@.is_mined()),
                None => r == Err::<bool, ChainError>(ChainError::Serialization),
            },
    {
        let data = match self.prepare_hash_data() {
            Ok(data) => data,
            Err(e) => {
                return Err(e);
            },
        };
        let hash = sha256_hex(data.as_slice());
        Ok(hash == self.hash && hash_meets_target(&hash))
    }
}

impl Clone for Block {
    fn clone(&self) -> (r: Self)
        ensures
            r@ == self@,
    {
        let r = Block {
            timestamp: self.timestamp,
            transactions: self.transactions.clone(),
            prev_block_hash: self.prev_block_hash.clone(),
            hash: self.hash.clone(),
            height: self.height,
            nonce: self.nonce,
        };
        assert(r@.transactions =~= self@.transactions);
        r
    }
}

} // verus!
