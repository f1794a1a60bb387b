use vstd::prelude::*;
use vstd::string::StringExecFns;

use crate::address::decode_spec;
use crate::block::Block;
use crate::block::BlockView;
use crate::clock::current_millis;
use crate::errors::ChainError;
use crate::keys::PUBLIC_KEY_LEN;
use crate::keys::is_keypair;
use crate::transaction::Transaction;
use crate::transaction::TransactionView;
use crate::transaction::coinbase_body;
use crate::transaction::coinbase_memo;
use crate::transaction::transaction_views;

verus! {

/// The memo of the genesis block's coinbase transaction.
pub const GENESIS_COINBASE_DATA: &'static str =
    "The Times 03/Jan/2009 Chancellor on brink of second bailout for banks";

/// The blocks form a ledger: there is a genesis block at height 0 without a
/// parent, every later block names the hash of the block before it and
/// stands one higher, and every block is mined.
pub open spec fn is_chain(blocks: Seq<BlockView>) -> bool {
    &&& 0 < blocks.len() <= i32::MAX
    &&& blocks[0].prev_block_hash.len() == 0
    &&& forall|i: int|
        0 <= i < blocks.len() ==> (#[trigger] blocks[i]).height == i && blocks[i].is_mined()
    &&& forall|i: int|
        0 < i < blocks.len() ==> (#[trigger] blocks[i]).prev_block_hash == blocks[i - 1].hash
}

/// The transactions of the blocks from the head down to place `i`, in the
/// order of a walk from the head back: later blocks first, and within a
/// block the block's own order.
pub open spec fn transactions_above(blocks: Seq<BlockView>, i: int) -> Seq<TransactionView>
    decreases blocks.len() - i,
{
    if i < 0 || i >= blocks.len() {
        Seq::empty()
    } else {
        transactions_above(blocks, i + 1) + blocks[i].transactions
    }
}

/// All transactions of the ledger, in the order of a walk from the head back
/// to the genesis block.
pub open spec fn chain_transactions(blocks: Seq<BlockView>) -> Seq<TransactionView> {
    transactions_above(blocks, 0)
}

/// The views of a sequence of blocks, in order.
pub open spec fn block_views(blocks: Seq<Block>) -> Seq<BlockView> {
    blocks.map_values(|b: Block| b@)
}

/// In a ledger the genesis block stands at height 0 and has no parent; every
/// other block names its parent's hash, which is not empty, and stands one
/// above its parent.
pub proof fn lemma_chain_links(blocks: Seq<BlockView>, i: int)
    requires
        is_chain(blocks),
        0 <= i < blocks.len(),
    ensures
        blocks[0].height == 0,
        blocks[0].prev_block_hash.len() == 0,
        i > 0 ==> blocks[i].prev_block_hash == blocks[i - 1].hash,
        i > 0 ==> blocks[i].height == blocks[i - 1].height + 1,
        i > 0 ==> blocks[i].prev_block_hash.len() > 0,
        blocks[i].is_mined(),
{
}

/// The ledger: the blocks from the genesis block up to the head.
#[derive(Debug)]
pub struct Blockchain {
    blocks: Vec<Block>,
}

impl View for Blockchain {
    type V = Seq<BlockView>;

    closed spec fn view(&self) -> Seq<BlockView> {
        block_views(self.blocks@)
    }
}

impl Clone for Blockchain {
    fn clone(&self) -> (r: Self)
        ensures
            r@ == self@,
    {
        proof {
            use_type_invariant(self);
        }
        let blocks = self.blocks.clone();
        assert(block_views(blocks@) =~= block_views(self.blocks@));
        Blockchain { blocks }
    }
}

impl Blockchain {
    #[verifier::type_invariant]
    spec fn inv(self) -> bool {
        is_chain(block_views(self.blocks@))
    }

    /// Opens the ledger that the store holds, given as its blocks from the
    /// genesis block up. No blocks means no ledger; blocks that do not form a
    /// ledger are refused.
    pub fn new(stored: Vec<Block>) -> (r: Result<Blockchain, ChainError>)
        ensures
            stored@.len() == 0 ==> (r matches Err(e) && e == ChainError::NoLedgerFound),
            stored@.len() > 0 && is_chain(block_views(stored@)) ==> (r matches Ok(bc) && bc@
                == block_views(stored@)),
            stored@.len() > 0 && !is_chain(block_views(stored@)) ==> (r matches Err(e) && e
                == ChainError::CorruptStore),
    {
        let ghost views = block_views(stored@);
        if stored.len() == 0 {
            return Err(ChainError::NoLedgerFound);
        }
        if stored.len() > i32::MAX as usize {
            return Err(ChainError::CorruptStore);
        }
        if !stored[0].get_prev_hash().as_str().is_empty() {
            return Err(ChainError::CorruptStore);
        }
        let mut i: usize = 0;
        while i < stored.len()
            invariant
                i <= stored@.len(),
                stored@.len() <= i32::MAX,
                views == block_views(stored@),
                forall|k: int| 0 <= k < i ==> (#[trigger] views[k]).height == k && views[k].is_mined(),
                forall|k: int|
                    0 < k < i ==> (#[trigger] views[k]).prev_block_hash == views[k - 1].hash,
            decreases stored@.len() - i,
        {
            let block = &stored[i];
            if block.get_height() != i as i32 {
                return Err(ChainError::CorruptStore);
            }
            match block.check() {
                Ok(true) => {},
                _ => {
                    assert(!views[i as int].is_mined());
                    return Err(ChainError::CorruptStore);
                },
            }
            if i > 0 {
                if block.get_prev_hash() != stored[i - 1].get_hash() {
                    return Err(ChainError::CorruptStore);
                }
            }
            i += 1;
        }
        Ok(Blockchain { blocks: stored })
    }

    /// Creates a ledger whose genesis block pays the subsidy to `address`
    /// and is stamped with the system clock's time. `stored` is what the
    /// store holds so far: a ledger that exists already is not replaced.
    pub fn create_blockchain(stored: &Vec<Block>, address: String) -> (r: Result<
        Blockchain,
        ChainError,
    >)
        ensures
            stored@.len() > 0 ==> (r matches Err(e) && e == ChainError::LedgerAlreadyExists),
            stored@.len() == 0 && decode_spec(address@) is None ==> (r matches Err(e) && e
                == ChainError::CorruptAddress),
            stored@.len() == 0 && decode_spec(address@) is Some && genesis_coinbase(
                address@,
            ).digest() is None ==> (r matches Err(e) && e == ChainError::Serialization),
            r matches Ok(bc) ==> stored@.len() == 0 && is_genesis_ledger(
                bc@,
                address@,
                bc@[0].timestamp,
            ),
            stored@.len() == 0 && decode_spec(address@) is Some && genesis_coinbase(
                address@,
            ).digest() is Some ==> (r matches Err(e) ==> e == ChainError::Clock || exists|
                timestamp: u128,
            | #[trigger]
                crate::block::mining_fails(
                    seq![genesis_transaction(address@)],
                    Seq::empty(),
                    timestamp,
                    e,
                )),
    {
        if stored.len() > 0 {
            return Err(ChainError::LedgerAlreadyExists);
        }
        let probe = Transaction::new_coinbase(
            address.clone(),
            String::from_str(GENESIS_COINBASE_DATA),
        );
        if let Err(e) = probe {
            return Err(e);
        }
        let timestamp = match current_millis() {
            Ok(t) => t,
            Err(e) => {
                return Err(e);
            },
        };
        let ghost to = address@;
        let r = Blockchain::create_blockchain_at(stored, address, timestamp);
        proof {
            if let Err(e) = r {
                assert(crate::block::mining_fails(
                    seq![genesis_transaction(to)],
                    Seq::empty(),
                    timestamp,
                    e,
                ));
            }
        }
        r
    }

    /// Creates a ledger whose genesis block pays the subsidy to `address`
    /// and is stamped with `timestamp`. `stored` is what the store holds so
    /// far: a ledger that exists already is not replaced.
    pub fn create_blockchain_at(stored: &Vec<Block>, address: String, timestamp: u128) -> (r:
        Result<Blockchain, ChainError>)
        ensures
            stored@.len() > 0 ==> (r matches Err(e) && e == ChainError::LedgerAlreadyExists),
            stored@.len() == 0 && decode_spec(address@) is None ==> (r matches Err(e) && e
                == ChainError::CorruptAddress),
            stored@.len() == 0 && decode_spec(address@) is Some && genesis_coinbase(
                address@,
            ).digest() is None ==> (r matches Err(e) && e == ChainError::Serialization),
            stored@.len() == 0 && decode_spec(address@) is Some && genesis_coinbase(
                address@,
            ).digest() is Some ==> (match r {
                Ok(bc) => is_genesis_ledger(bc@, address@, timestamp),
                Err(e) => crate::block::mining_fails(
                    seq![genesis_transaction(address@)],
                    Seq::empty(),
                    timestamp,
                    e,
                ),
            }),
    {
        if stored.len() > 0 {
            return Err(ChainError::LedgerAlreadyExists);
        }
        let cbtx = match Transaction::new_coinbase(
            address,
            String::from_str(GENESIS_COINBASE_DATA),
        ) {
            Ok(tx) => tx,
            Err(e) => {
                return Err(e);
            },
        };
        let mut data: Vec<Transaction> = Vec::new();
        data.push(cbtx);
        assert(transaction_views(data@) =~= seq![cbtx@]);
        let genesis = match Block::mine(data, String::new(), 0, timestamp) {
            Ok(b) => b,
            Err(e) => {
                return Err(e);
            },
        };
        let mut blocks: Vec<Block> = Vec::new();
        blocks.push(genesis);
        Ok(Blockchain { blocks })
    }

    /// The ledger's blocks, from the genesis block up to the head. They form
    /// a ledger in every state.
    pub fn get_blocks(&self) -> (r: &Vec<Block>)
        ensures
            block_views(r@) == self@,
            is_chain(self@),
    {
        proof {
            use_type_invariant(self);
        }
        &self.blocks
    }

    /// The head of the ledger: its last block.
    pub fn tip(&self) -> (r: &Block)
        ensures
            is_chain(self@),
            r@ == self@.last(),
    {
        proof {
            use_type_invariant(self);
        }
        &self.blocks[self.blocks.len() - 1]
    }

    /// The height of the head.
    pub fn get_best_height(&self) -> (r: i32)
        ensures
            r == self@.len() - 1,
            r == self@.last().height,
    {
        proof {
            use_type_invariant(self);
        }
        self.tip().get_height()
    }

    /// Mines a block over `transactions` on the head, stamped with the
    /// system clock's time, and makes it the new head. An error is `Clock`,
    /// or the error that adding the block at the time read fails with; on an
    /// error the ledger stays as it was.
    pub fn add_block(&mut self, transactions: Vec<Transaction>) -> (r: Result<Block, ChainError>)
        ensures
            is_chain(final(self)@),
            r matches Ok(b) ==> final(self)@ == old(self)@.push(b@) && added_to(
                b@,
                old(self)@,
                transaction_views(transactions@),
                b@.timestamp,
            ),
            r matches Err(e) ==> final(self)@ == old(self)@ && (e == ChainError::Clock
                || exists|timestamp: u128| #[trigger]
                adding_fails(old(self)@, transaction_views(transactions@), timestamp, e)),
    {
        proof {
            use_type_invariant(&*self);
        }
        let timestamp = match current_millis() {
            Ok(t) => t,
            Err(e) => {
                return Err(e);
            },
        };
        let ghost txs = transaction_views(transactions@);
        let r = self.add_block_at(transactions, timestamp);
        proof {
            if let Err(e) = r {
                assert(adding_fails(old(self)@, txs, timestamp, e));
            }
        }
        r
    }

    /// Mines a block over `transactions` on the head, stamped with
    /// `timestamp`, and makes it the new head. On an error the ledger stays
    /// as it was.
    pub fn add_block_at(&mut self, transactions: Vec<Transaction>, timestamp: u128) -> (r: Result<
        Block,
        ChainError,
    >)
        ensures
            is_chain(final(self)@),
            r matches Ok(b) ==> final(self)@ == old(self)@.push(b@) && b@.mined_from(
                transaction_views(transactions@),
                old(self)@.last().hash,
                (old(self)@.last().height + 1) as i32,
                timestamp,
            ),
            r matches Err(e) ==> final(self)@ == old(self)@ && (if old(self)@.len()
                == i32::MAX {
                e == ChainError::HeightExhausted
            } else {
                crate::block::mining_fails(
                    transaction_views(transactions@),
                    old(self)@.last().hash,
                    timestamp,
                    e,
                )
            }),
    {
        proof {
            use_type_invariant(&*self);
        }
        let height = self.get_best_height();
        if height == i32::MAX - 1 {
            return Err(ChainError::HeightExhausted);
        }
        let prev_hash = self.tip().get_hash();
        let block = match Block::mine(transactions, prev_hash, height + 1, timestamp) {
            Ok(b) => b,
            Err(e) => {
                return Err(e);
            },
        };
        let kept = block.clone();
        let ghost before = block_views(self.blocks@);
        let mut blocks = self.blocks.clone();
        blocks.push(block);
        proof {
            let after = block_views(blocks@);
            assert forall|i: int| 0 <= i < after.len() implies (#[trigger] after[i]).height == i
                && after[i].is_mined() by {
                if i < before.len() {
                    assert(after[i] == before[i]);
                }
            }
            assert forall|i: int| 0 < i < after.len() implies (#[trigger] after[i]).prev_block_hash
                == after[i - 1].hash by {
                if i < before.len() {
                    assert(after[i] == before[i]);
                }
            }
        }
        self.blocks = blocks;
        Ok(kept)
    }

    /// A fresh walk over the ledger, from the head back to the genesis
    /// block.
    pub fn iter(&self) -> (r: BlockchainIterator<'_>)
        ensures
            r.remaining() == self@.reverse(),
    {
        let r = BlockchainIterator { left: self.blocks.len(), bc: self };
        r
    }

    /// The ledger's blocks in the order of a walk from the head back to the
    /// genesis block.
    pub fn blocks_from_tip(&self) -> (r: Vec<Block>)
        ensures
            block_views(r@) == self@.reverse(),
    {
        let mut out: Vec<Block> = Vec::new();
        let mut i: usize = self.blocks.len();
        while i > 0
            invariant
                i <= self.blocks@.len(),
                out@.len() == self.blocks@.len() - i,
                forall|k: int|
                    0 <= k < out@.len() ==> (#[trigger] out@[k])@ == self.blocks@[self.blocks@.len()
                        - 1 - k]@,
            decreases i,
        {
            i -= 1;
            out.push(self.blocks[i].clone());
        }
        out
    }

    /// All transactions of the ledger, in the order of a walk from the head
    /// back to the genesis block.
    pub fn transactions(&self) -> (r: Vec<Transaction>)
        ensures
            transaction_views(r@) == chain_transactions(self@),
    {
        let ghost views = self@;
        let mut out: Vec<Transaction> = Vec::new();
        let mut i: usize = self.blocks.len();
        while i > 0
            invariant
                i <= self.blocks@.len(),
                views == block_views(self.blocks@),
                transaction_views(out@) == transactions_above(views, i as int),
            decreases i,
        {
            i -= 1;
            let txs = self.blocks[i].get_transaction();
            let ghost before = out@;
            let mut j: usize = 0;
            while j < txs.len()
                invariant
                    j <= txs@.len(),
                    transaction_views(out@) == transaction_views(before) + transaction_views(
                        txs@,
                    ).take(j as int),
                decreases txs@.len() - j,
            {
                let ghost last = out@;
                out.push(txs[j].clone());
                assert(transaction_views(out@) =~= transaction_views(last).push(txs@[j as int]@));
                assert(transaction_views(txs@).take(j + 1) =~= transaction_views(txs@).take(
                    j as int,
                ).push(txs@[j as int]@));
                j += 1;
            }
        }
        out
    }

    /// The first transaction with the given id that a walk from the head
    /// back to the genesis block meets.
    pub fn find_transaction(&self, id: &String) -> (r: Result<Transaction, ChainError>)
        ensures
            match r {
                Ok(tx) => crate::transaction::is_first_tx(
                    chain_transactions(self@),
                    id@,
                    crate::transaction::first_tx(chain_transactions(self@), id@),
                ) && tx@ == chain_transactions(self@)[crate::transaction::first_tx(
                    chain_transactions(self@),
                    id@,
                )],
                Err(e) => e == ChainError::MissingPrevTransaction
                    && !crate::transaction::has_tx(chain_transactions(self@), id@),
            },
    {
        let all = self.transactions();
        match crate::transaction::find_tx(&all, id) {
            Some(k) => {
                Ok(all[k].clone())
            },
            None => Err(ChainError::MissingPrevTransaction),
        }
    }

    /// Signs `tx` with `private_key`, looking up the outputs it spends in
    /// the ledger's transactions.
    pub fn sign_transaction(&self, tx: &mut Transaction, private_key: &[u8]) -> (r: Result<
        (),
        ChainError,
    >)
        ensures
            old(tx)@.sign_result(final(tx)@, private_key@, chain_transactions(self@), r),
            r is Ok && !old(tx)@.is_coinbase() ==> old(tx)@.signatures_accepted(
                final(tx)@,
                private_key@,
                chain_transactions(self@),
            ),
            forall|public_key: Seq<u8>|
                r is Ok && !old(tx)@.is_coinbase() && public_key.len() == PUBLIC_KEY_LEN
                    && #[trigger] is_keypair(private_key@, public_key) && old(
                    tx,
                )@.all_inputs_carry(public_key) ==> final(tx)@.verify_spec(
                    chain_transactions(self@),
                ) == Ok::<bool, ChainError>(true),
    {
        let prev = self.transactions();
        tx.sign(private_key, prev)
    }

    /// Verifies `tx` against the ledger's transactions.
    pub fn verify_transaction(&self, tx: &Transaction) -> (r: Result<bool, ChainError>)
        ensures
            r == tx@.verify_spec(chain_transactions(self@)),
    {
        let prev = self.transactions();
        tx.verify(prev)
    }
}

/// A walk over a ledger from the head back to the genesis block, one block
/// at a time.
pub struct BlockchainIterator<'a> {
    left: usize,
    bc: &'a Blockchain,
}

impl<'a> BlockchainIterator<'a> {
    #[verifier::type_invariant]
    spec fn inv(self) -> bool {
        self.left <= self.bc.blocks@.len()
    }

    /// The blocks that the walk has still to give, next one first.
    pub closed spec fn remaining(&self) -> Seq<BlockView> {
        self.bc@.take(self.left as int).reverse()
    }

    /// The next block of the walk; `None` once the genesis block has been
    /// given.
    pub fn next(&mut self) -> (r: Option<&'a Block>)
        ensures
            match r {
                Some(block) => old(self).remaining().len() > 0 && block@ == old(
                    self,
                ).remaining()[0] && final(self).remaining() == old(self).remaining().drop_first(),
                None => old(self).remaining().len() == 0 && final(self).remaining() == old(
                    self,
                ).remaining(),
            },
    {
        proof {
            use_type_invariant(&*self);
        }
        if self.left == 0 {
            return None;
        }
        self.left = self.left - 1;
        Some(&self.bc.blocks[self.left])
    }
}

/// Why adding a block over `txs`, stamped with `timestamp`, to the ledger
/// fails with `e`: the head stands at the greatest height there is, or else
/// mining on the head fails with `e`.
pub open spec fn adding_fails(
    ledger: Seq<BlockView>,
    txs: Seq<TransactionView>,
    timestamp: u128,
    e: ChainError,
) -> bool {
    if ledger.len() == i32::MAX {
        e == ChainError::HeightExhausted
    } else {
        crate::block::mining_fails(txs, ledger.last().hash, timestamp, e)
    }
}

/// `block` is the outcome of adding a block over `txs`, stamped with
/// `timestamp`, to the ledger: there is room above the head, and the block is
/// mined from `txs` on the head's hash, one above the head.
pub open spec fn added_to(
    block: BlockView,
    ledger: Seq<BlockView>,
    txs: Seq<TransactionView>,
    timestamp: u128,
) -> bool {
    &&& ledger.len() < i32::MAX
    &&& block.mined_from(
        txs,
        ledger.last().hash,
        (ledger.last().height + 1) as i32,
        timestamp,
    )
}

/// The genesis block's coinbase transaction before its id is set: it pays
/// the subsidy to `address` and carries the genesis memo.
pub open spec fn genesis_coinbase(address: Seq<char>) -> TransactionView {
    coinbase_body(decode_spec(address).unwrap(), coinbase_memo(address, GENESIS_COINBASE_DATA@))
}

/// The genesis block's coinbase transaction, under its id.
pub open spec fn genesis_transaction(address: Seq<char>) -> TransactionView {
    genesis_coinbase(address).with_id(genesis_coinbase(address).digest().unwrap())
}

/// The ledger is a genesis block alone, mined at `timestamp` over the single
/// coinbase transaction that pays `address`.
pub open spec fn is_genesis_ledger(blocks: Seq<BlockView>, address: Seq<char>, timestamp: u128)
    -> bool {
    &&& is_chain(blocks)
    &&& blocks.len() == 1
    &&& decode_spec(address) is Some
    &&& genesis_coinbase(address).digest() is Some
    &&& blocks[0].mined_from(seq![genesis_transaction(address)], Seq::empty(), 0, timestamp)
}

} // verus!
