use vstd::prelude::*;

use crate::block::Block;
use crate::block::BlockView;
use crate::blockchain::Blockchain;
use crate::blockchain::added_to;
use crate::blockchain::adding_fails;
use crate::blockchain::chain_transactions;
use crate::errors::ChainError;
use crate::transaction::Transaction;
use crate::transaction::TransactionView;
use crate::transaction::find_tx;
use crate::transaction::has_tx;
use crate::transaction::transaction_views;
use crate::tx::TXOutput;
use crate::tx::TXOutputView;

verus! {

/// An output that no input has spent, with the place it can be referred to
/// by.
#[derive(Debug)]
pub struct UnspentOutput {
    pub txid: String,
    pub index: i32,
    pub output: TXOutput,
}

/// What an `UnspentOutput` holds, as mathematical values.
pub struct UnspentOutputView {
    pub txid: Seq<char>,
    pub index: i32,
    pub output: TXOutputView,
}

impl View for UnspentOutput {
    type V = UnspentOutputView;

    open spec fn view(&self) -> UnspentOutputView {
        UnspentOutputView { txid: self.txid@, index: self.index, output: self.output@ }
    }
}

impl Clone for UnspentOutput {
    fn clone(&self) -> (r: Self)
        ensures
            r@ == self@,
    {
        UnspentOutput {
            txid: self.txid.clone(),
            index: self.index,
            output: self.output.clone(),
        }
    }
}

/// The views of a sequence of unspent outputs, in order.
pub open spec fn unspent_views(outputs: Seq<UnspentOutput>) -> Seq<UnspentOutputView> {
    outputs.map_values(|u: UnspentOutput| u@)
}

/// A reference to an output: the id of its transaction and its index there.
pub type OutputRef = (String, i32);

/// The references held by a vector, as mathematical values.
pub open spec fn ref_views(refs: Seq<OutputRef>) -> Seq<(Seq<char>, i32)> {
    refs.map_values(|r: OutputRef| (r.0@, r.1))
}

/// The transaction spends output `index` of the transaction `txid`: it is no
/// coinbase transaction and one of its inputs refers to that output.
pub open spec fn spends(tx: TransactionView, txid: Seq<char>, index: i32) -> bool {
    !tx.is_coinbase() && exists|j: int|
        0 <= j < tx.vin.len() && (#[trigger] tx.vin[j]).txid == txid && tx.vin[j].vout == index
}

/// Some transaction that a walk over `visit` meets before place `p` spends
/// output `index` of the transaction `txid`.
pub open spec fn spent_before(visit: Seq<TransactionView>, p: int, txid: Seq<char>, index: i32)
    -> bool {
    exists|q: int| 0 <= q < p && q < visit.len() && spends(#[trigger] visit[q], txid, index)
}

/// Of the first `k` outputs of the transaction at place `p`, in order, those
/// that no transaction met before `p` spends. An output whose index is too
/// large for an input to name is left out.
pub open spec fn unspent_prefix(visit: Seq<TransactionView>, p: int, k: int) -> Seq<
    UnspentOutputView,
>
    decreases k,
{
    if k <= 0 {
        Seq::empty()
    } else {
        let rest = unspent_prefix(visit, p, k - 1);
        if k - 1 <= i32::MAX && !spent_before(visit, p, visit[p].id, (k - 1) as i32) {
            rest.push(
                UnspentOutputView {
                    txid: visit[p].id,
                    index: (k - 1) as i32,
                    output: visit[p].vout[k - 1],
                },
            )
        } else {
            rest
        }
    }
}

/// The walk over `visit` meets a transaction with the id `id` before place
/// `p`.
pub open spec fn met_before(visit: Seq<TransactionView>, p: int, id: Seq<char>) -> bool {
    exists|q: int| 0 <= q < p && q < visit.len() && (#[trigger] visit[q]).id == id
}

/// The unspent outputs that the transaction at place `p` of a walk gives:
/// those of its outputs that no transaction met before it spends. A
/// reference names one output only, so a transaction whose id the walk has
/// met before gives none: under an id the index lists the outputs of the
/// transaction that the walk meets first.
pub open spec fn unspent_of(visit: Seq<TransactionView>, p: int) -> Seq<UnspentOutputView> {
    if met_before(visit, p, visit[p].id) {
        Seq::empty()
    } else {
        unspent_prefix(visit, p, visit[p].vout.len() as int)
    }
}

/// The unspent outputs of the first `p` transactions of a walk, in the
/// walk's order.
pub open spec fn unspent_upto(visit: Seq<TransactionView>, p: int) -> Seq<UnspentOutputView>
    decreases p,
{
    if p <= 0 {
        Seq::empty()
    } else {
        unspent_upto(visit, p - 1) + unspent_of(visit, p - 1)
    }
}

/// The unspent outputs of a walk from the head back to the genesis block: an
/// output is unspent unless a transaction met earlier on the walk spends it.
/// Each reference occurs once at most.
pub open spec fn unspent_outputs(visit: Seq<TransactionView>) -> Seq<UnspentOutputView> {
    unspent_upto(visit, visit.len() as int)
}

/// The outcome of collecting spendable outputs among the first `n` entries:
/// walking the entries in order, an entry locked to `key_hash` is taken as
/// long as the total so far is below `amount`. Gives the total and the
/// references taken.
pub open spec fn spendable_upto(
    entries: Seq<UnspentOutputView>,
    key_hash: Seq<u8>,
    amount: i32,
    n: int,
) -> (int, Seq<(Seq<char>, i32)>)
    decreases n,
{
    if n <= 0 {
        (0, Seq::empty())
    } else {
        let (total, taken) = spendable_upto(entries, key_hash, amount, n - 1);
        let entry = entries[n - 1];
        if entry.output.pub_key_hash == key_hash && total < amount {
            (total + entry.output.value, taken.push((entry.txid, entry.index)))
        } else {
            (total, taken)
        }
    }
}

/// The outcome of collecting spendable outputs over all entries.
pub open spec fn spendable(entries: Seq<UnspentOutputView>, key_hash: Seq<u8>, amount: i32) -> (
    int,
    Seq<(Seq<char>, i32)>,
) {
    spendable_upto(entries, key_hash, amount, entries.len() as int)
}

/// The sum of the values of those among the first `n` entries that are
/// locked to `key_hash`.
pub open spec fn balance_upto(entries: Seq<UnspentOutputView>, key_hash: Seq<u8>, n: int) -> int
    decreases n,
{
    if n <= 0 {
        0
    } else if entries[n - 1].output.pub_key_hash == key_hash {
        balance_upto(entries, key_hash, n - 1) + entries[n - 1].output.value
    } else {
        balance_upto(entries, key_hash, n - 1)
    }
}

/// The sum of the values of all entries locked to `key_hash`.
pub open spec fn balance_spec(entries: Seq<UnspentOutputView>, key_hash: Seq<u8>) -> int {
    balance_upto(entries, key_hash, entries.len() as int)
}

/// The references of those among the first `n` entries that are locked to
/// `key_hash`, in order.
pub open spec fn matching_upto(entries: Seq<UnspentOutputView>, key_hash: Seq<u8>, n: int) -> Seq<
    (Seq<char>, i32),
>
    decreases n,
{
    if n <= 0 {
        Seq::empty()
    } else if entries[n - 1].output.pub_key_hash == key_hash {
        matching_upto(entries, key_hash, n - 1).push((entries[n - 1].txid, entries[n - 1].index))
    } else {
        matching_upto(entries, key_hash, n - 1)
    }
}

/// The outputs of those among the first `n` entries that are locked to
/// `key_hash`, in order.
pub open spec fn outputs_upto(entries: Seq<UnspentOutputView>, key_hash: Seq<u8>, n: int) -> Seq<
    TXOutputView,
>
    decreases n,
{
    if n <= 0 {
        Seq::empty()
    } else if entries[n - 1].output.pub_key_hash == key_hash {
        outputs_upto(entries, key_hash, n - 1).push(entries[n - 1].output)
    } else {
        outputs_upto(entries, key_hash, n - 1)
    }
}

/// Collecting never stops short: a total below the amount means that every
/// entry locked to the key hash was taken, so the total is the whole balance.
pub proof fn lemma_short_total_is_exhaustive(
    entries: Seq<UnspentOutputView>,
    key_hash: Seq<u8>,
    amount: i32,
    n: int,
)
    requires
        spendable_upto(entries, key_hash, amount, n).0 < amount,
    ensures
        spendable_upto(entries, key_hash, amount, n).0 == balance_upto(entries, key_hash, n),
        spendable_upto(entries, key_hash, amount, n).1 == matching_upto(entries, key_hash, n),
    decreases n,
{
    if n > 0 {
        lemma_short_total_is_exhaustive(entries, key_hash, amount, n - 1);
    }
}

/// The total never runs far past the amount: the last entry taken found the
/// total still below the amount, so what is left over fits in an output's
/// value. And the total is no more than the balance.
pub proof fn lemma_total_settles(
    entries: Seq<UnspentOutputView>,
    key_hash: Seq<u8>,
    amount: i32,
    n: int,
)
    ensures
        spendable_upto(entries, key_hash, amount, n).0 - amount <= u32::MAX,
        0 <= spendable_upto(entries, key_hash, amount, n).0 <= balance_upto(entries, key_hash, n),
    decreases n,
{
    if n > 0 {
        lemma_total_settles(entries, key_hash, amount, n - 1);
    }
}

/// Some transaction of the batch spends output `index` of the transaction
/// `txid`.
pub open spec fn spent_in(txs: Seq<TransactionView>, txid: Seq<char>, index: i32) -> bool {
    spent_before(txs, txs.len() as int, txid, index)
}

/// The batch leaves the entry in the index: no transaction of the batch
/// spends it, and none carries the id it refers to.
pub open spec fn survives(entry: UnspentOutputView, txs: Seq<TransactionView>) -> bool {
    !spent_in(txs, entry.txid, entry.index) && !has_tx(txs, entry.txid)
}

/// Of the first `n` entries, in order, those that the batch leaves in the
/// index.
pub open spec fn kept_upto(entries: Seq<UnspentOutputView>, txs: Seq<TransactionView>, n: int)
    -> Seq<UnspentOutputView>
    decreases n,
{
    if n <= 0 {
        Seq::empty()
    } else if survives(entries[n - 1], txs) {
        kept_upto(entries, txs, n - 1).push(entries[n - 1])
    } else {
        kept_upto(entries, txs, n - 1)
    }
}

/// The entries that the batch leaves in the index, in order.
pub open spec fn kept(entries: Seq<UnspentOutputView>, txs: Seq<TransactionView>) -> Seq<
    UnspentOutputView,
> {
    kept_upto(entries, txs, entries.len() as int)
}

/// The index after a block with the transactions `txs` has become the head:
/// the unspent outputs of the block itself, then the entries held so far
/// that the block neither spends nor replaces.
pub open spec fn applied(entries: Seq<UnspentOutputView>, txs: Seq<TransactionView>) -> Seq<
    UnspentOutputView,
> {
    unspent_outputs(txs) + kept(entries, txs)
}

/// Before a place within the batch, only the batch's own transactions count.
proof fn lemma_spent_head(
    txs: Seq<TransactionView>,
    old: Seq<TransactionView>,
    p: int,
    txid: Seq<char>,
    index: i32,
)
    requires
        0 <= p <= txs.len(),
    ensures
        spent_before(txs + old, p, txid, index) <==> spent_before(txs, p, txid, index),
{
    let all = txs + old;
    if spent_before(all, p, txid, index) {
        let q = choose|q: int| 0 <= q < p && q < all.len() && spends(#[trigger] all[q], txid, index);
    }
    if spent_before(txs, p, txid, index) {
        let q = choose|q: int| 0 <= q < p && q < txs.len() && spends(#[trigger] txs[q], txid, index);
        assert(all[q] == txs[q]);
    }
}

/// Before a place behind the batch, an output is spent by the batch or by an
/// older transaction met before that place.
proof fn lemma_spent_tail(
    txs: Seq<TransactionView>,
    old: Seq<TransactionView>,
    q: int,
    txid: Seq<char>,
    index: i32,
)
    requires
        0 <= q <= old.len(),
    ensures
        spent_before(txs + old, txs.len() + q, txid, index) <==> (spent_in(txs, txid, index)
            || spent_before(old, q, txid, index)),
{
    let all = txs + old;
    let m = txs.len() as int;
    if spent_before(all, m + q, txid, index) {
        let w = choose|w: int|
            0 <= w < m + q && w < all.len() && spends(#[trigger] all[w], txid, index);
    }
    if spent_in(txs, txid, index) {
        let w = choose|w: int| 0 <= w < m && w < txs.len() && spends(#[trigger] txs[w], txid, index);
        assert(all[w] == txs[w]);
    }
    if spent_before(old, q, txid, index) {
        let w = choose|w: int| 0 <= w < q && w < old.len() && spends(#[trigger] old[w], txid, index);
        assert(all[m + w] == old[w]);
    }
}

proof fn lemma_prefix_head(
    txs: Seq<TransactionView>,
    old: Seq<TransactionView>,
    p: int,
    k: int,
)
    requires
        0 <= p < txs.len(),
    ensures
        unspent_prefix(txs + old, p, k) == unspent_prefix(txs, p, k),
    decreases k,
{
    if k > 0 {
        lemma_prefix_head(txs, old, p, k - 1);
        if k - 1 <= i32::MAX {
            lemma_spent_head(txs, old, p, txs[p].id, (k - 1) as i32);
        }
    }
}

proof fn lemma_upto_head(txs: Seq<TransactionView>, old: Seq<TransactionView>, p: int)
    requires
        0 <= p <= txs.len(),
    ensures
        unspent_upto(txs + old, p) == unspent_upto(txs, p),
    decreases p,
{
    if p > 0 {
        lemma_upto_head(txs, old, p - 1);
        assert((txs + old)[p - 1] == txs[p - 1]);
        lemma_met_head(txs, old, p - 1, txs[p - 1].id);
        lemma_prefix_head(txs, old, p - 1, txs[p - 1].vout.len() as int);
    }
}

/// What is kept of the first `n` entries depends on those entries alone.
proof fn lemma_kept_local(
    a: Seq<UnspentOutputView>,
    b: Seq<UnspentOutputView>,
    txs: Seq<TransactionView>,
    n: int,
)
    requires
        n <= a.len(),
        n <= b.len(),
        forall|i: int| 0 <= i < n ==> a[i] == b[i],
    ensures
        kept_upto(a, txs, n) == kept_upto(b, txs, n),
    decreases n,
{
    if n > 0 {
        lemma_kept_local(a, b, txs, n - 1);
    }
}

/// Keeping distributes over joining two lists.
proof fn lemma_kept_concat(
    a: Seq<UnspentOutputView>,
    b: Seq<UnspentOutputView>,
    txs: Seq<TransactionView>,
    j: int,
)
    requires
        0 <= j <= b.len(),
    ensures
        kept_upto(a + b, txs, a.len() + j) == kept(a, txs) + kept_upto(b, txs, j),
    decreases j,
{
    if j == 0 {
        lemma_kept_local(a + b, a, txs, a.len() as int);
    } else {
        lemma_kept_concat(a, b, txs, j - 1);
        assert((a + b)[a.len() + j - 1] == b[j - 1]);
        if survives(b[j - 1], txs) {
            assert((kept(a, txs) + kept_upto(b, txs, j - 1)).push(b[j - 1]) =~= kept(a, txs)
                + kept_upto(b, txs, j - 1).push(b[j - 1]));
        }
    }
}

proof fn lemma_prefix_tail(
    txs: Seq<TransactionView>,
    old: Seq<TransactionView>,
    q: int,
    k: int,
)
    requires
        0 <= q < old.len(),
        !has_tx(txs, old[q].id),
    ensures
        unspent_prefix(txs + old, txs.len() + q, k) == kept(unspent_prefix(old, q, k), txs),
    decreases k,
{
    if k > 0 {
        lemma_prefix_tail(txs, old, q, k - 1);
        assert((txs + old)[txs.len() + q] == old[q]);
        let rest = unspent_prefix(old, q, k - 1);
        if k - 1 <= i32::MAX {
            lemma_spent_tail(txs, old, q, old[q].id, (k - 1) as i32);
            if !spent_before(old, q, old[q].id, (k - 1) as i32) {
                let entry = UnspentOutputView {
                    txid: old[q].id,
                    index: (k - 1) as i32,
                    output: old[q].vout[k - 1],
                };
                let grown = rest.push(entry);
                assert(unspent_prefix(old, q, k) == grown);
                lemma_kept_local(grown, rest, txs, rest.len() as int);
                assert(grown[grown.len() - 1] == entry);
            }
        }
    }
}

/// Every entry among the first `k` outputs of the transaction at place `p`
/// refers to that transaction, by an index below `k` that is not negative;
/// the indexes ascend.
pub proof fn lemma_prefix_entries(visit: Seq<TransactionView>, p: int, k: int)
    ensures
        unspent_prefix(visit, p, k).len() <= (if k <= 0 {
            0
        } else {
            k
        }),
        forall|j: int|
            0 <= j < unspent_prefix(visit, p, k).len() ==> {
                let e = #[trigger] unspent_prefix(visit, p, k)[j];
                &&& e.txid == visit[p].id
                &&& 0 <= e.index < k
                &&& e.output == visit[p].vout[e.index as int]
                &&& !spent_before(visit, p, e.txid, e.index)
            },
        forall|a: int, b: int|
            0 <= a < b < unspent_prefix(visit, p, k).len() ==> (#[trigger] unspent_prefix(
                visit,
                p,
                k,
            )[a]).index < (#[trigger] unspent_prefix(visit, p, k)[b]).index,
    decreases k,
{
    if k > 0 {
        lemma_prefix_entries(visit, p, k - 1);
    }
}

/// Of entries that all refer to an id which the batch carries, none is kept.
proof fn lemma_kept_none(
    entries: Seq<UnspentOutputView>,
    txs: Seq<TransactionView>,
    id: Seq<char>,
    n: int,
)
    requires
        n <= entries.len(),
        has_tx(txs, id),
        forall|j: int| 0 <= j < n ==> (#[trigger] entries[j]).txid == id,
    ensures
        kept_upto(entries, txs, n) == Seq::<UnspentOutputView>::empty(),
    decreases n,
{
    if n > 0 {
        lemma_kept_none(entries, txs, id, n - 1);
    }
}

/// Before a place within the batch, only the batch's own ids were met.
proof fn lemma_met_head(
    txs: Seq<TransactionView>,
    old: Seq<TransactionView>,
    p: int,
    id: Seq<char>,
)
    requires
        0 <= p <= txs.len(),
    ensures
        met_before(txs + old, p, id) <==> met_before(txs, p, id),
{
    let all = txs + old;
    if met_before(all, p, id) {
        let q = choose|q: int| 0 <= q < p && q < all.len() && (#[trigger] all[q]).id == id;
        assert(txs[q].id == id);
    }
    if met_before(txs, p, id) {
        let q = choose|q: int| 0 <= q < p && q < txs.len() && (#[trigger] txs[q]).id == id;
        assert(all[q].id == id);
    }
}

/// Before a place behind the batch, an id was met in the batch or in an
/// older transaction before that place.
proof fn lemma_met_tail(
    txs: Seq<TransactionView>,
    old: Seq<TransactionView>,
    q: int,
    id: Seq<char>,
)
    requires
        0 <= q <= old.len(),
    ensures
        met_before(txs + old, txs.len() + q, id) <==> (has_tx(txs, id) || met_before(old, q, id)),
{
    let all = txs + old;
    let m = txs.len() as int;
    if met_before(all, m + q, id) {
        let w = choose|w: int| 0 <= w < m + q && w < all.len() && (#[trigger] all[w]).id == id;
        if w < m {
            assert(txs[w].id == id);
        } else {
            assert(old[w - m].id == id);
        }
    }
    if has_tx(txs, id) {
        let w = choose|w: int| 0 <= w < txs.len() && (#[trigger] txs[w]).id == id;
        assert(all[w].id == id);
    }
    if met_before(old, q, id) {
        let w = choose|w: int| 0 <= w < q && w < old.len() && (#[trigger] old[w]).id == id;
        assert(all[m + w].id == id);
    }
}

proof fn lemma_of_tail(txs: Seq<TransactionView>, old: Seq<TransactionView>, q: int)
    requires
        0 <= q < old.len(),
    ensures
        unspent_of(txs + old, txs.len() + q) == kept(unspent_of(old, q), txs),
{
    let all = txs + old;
    let m = txs.len() as int;
    let width = old[q].vout.len() as int;
    assert(all[m + q] == old[q]);
    lemma_met_tail(txs, old, q, old[q].id);
    if has_tx(txs, old[q].id) {
        let listed = unspent_of(old, q);
        lemma_prefix_entries(old, q, width);
        lemma_kept_none(listed, txs, old[q].id, listed.len() as int);
    } else if !met_before(old, q, old[q].id) {
        lemma_prefix_tail(txs, old, q, width);
    }
}

proof fn lemma_upto_tail(txs: Seq<TransactionView>, old: Seq<TransactionView>, q: int)
    requires
        0 <= q <= old.len(),
    ensures
        unspent_upto(txs + old, txs.len() + q) == unspent_outputs(txs) + kept(
            unspent_upto(old, q),
            txs,
        ),
    decreases q,
{
    if q == 0 {
        lemma_upto_head(txs, old, txs.len() as int);
    } else {
        lemma_upto_tail(txs, old, q - 1);
        lemma_of_tail(txs, old, q - 1);
        let a = unspent_upto(old, q - 1);
        let b = unspent_of(old, q - 1);
        lemma_kept_concat(a, b, txs, b.len() as int);
        assert(unspent_outputs(txs) + kept(a, txs) + kept(b, txs) =~= unspent_outputs(txs) + (kept(
            a,
            txs,
        ) + kept(b, txs)));
    }
}

/// Applying a block to the index of the ledger below it gives the index of
/// the ledger with that block as its head: updating step by step and
/// rebuilding from the whole ledger agree.
pub proof fn lemma_apply_is_rebuild(txs: Seq<TransactionView>, old: Seq<TransactionView>)
    ensures
        applied(unspent_outputs(old), txs) == unspent_outputs(txs + old),
{
    lemma_upto_tail(txs, old, old.len() as int);
}

/// The walk over a ledger with one more block meets that block's
/// transactions first and then walks the ledger below it.
pub proof fn lemma_walk_of_longer_chain(
    blocks: Seq<crate::block::BlockView>,
    head: crate::block::BlockView,
    i: int,
)
    requires
        0 <= i <= blocks.len(),
    ensures
        crate::blockchain::transactions_above(blocks.push(head), i) == head.transactions
            + crate::blockchain::transactions_above(blocks, i),
    decreases blocks.len() - i,
{
    let longer = blocks.push(head);
    if i == blocks.len() {
        assert(crate::blockchain::transactions_above(longer, i + 1) =~= Seq::empty());
        assert(Seq::<TransactionView>::empty() + head.transactions =~= head.transactions
            + Seq::<TransactionView>::empty());
    } else {
        lemma_walk_of_longer_chain(blocks, head, i + 1);
        assert(head.transactions + crate::blockchain::transactions_above(blocks, i + 1)
            + blocks[i].transactions =~= head.transactions + (
        crate::blockchain::transactions_above(blocks, i + 1) + blocks[i].transactions));
    }
}

/// Whether `refs` holds the reference (`txid`, `index`).
fn holds_ref(refs: &Vec<OutputRef>, txid: &String, index: i32) -> (r: bool)
    ensures
        r == ref_views(refs@).contains((txid@, index)),
{
    let ghost views = ref_views(refs@);
    let mut i: usize = 0;
    while i < refs.len()
        invariant
            i <= refs@.len(),
            views == ref_views(refs@),
            forall|k: int| 0 <= k < i ==> views[k] != (txid@, index),
        decreases refs@.len() - i,
    {
        if refs[i].1 == index && refs[i].0 == *txid {
            assert(views[i as int] == (txid@, index));
            return true;
        }
        i += 1;
    }
    false
}

/// The unspent outputs of a walk over `txs`, which lists the ledger's
/// transactions from the head back to the genesis block. No reference
/// occurs twice among them, and each stands for an output of a transaction
/// of the walk.
pub fn find_unspent(txs: &Vec<Transaction>) -> (r: Vec<UnspentOutput>)
    ensures
        unspent_views(r@) == unspent_outputs(transaction_views(txs@)),
        distinct_refs(unspent_views(r@)),
        sourced(unspent_views(r@), transaction_views(txs@)),
{
    proof {
        lemma_unspent_well_formed(transaction_views(txs@));
    }
    scan(txs).0
}

/// One walk over `txs`: the unspent outputs of the walk, and the references
/// of all outputs that the transactions of the walk spend.
fn scan(txs: &Vec<Transaction>) -> (r: (Vec<UnspentOutput>, Vec<OutputRef>))
    ensures
        unspent_views(r.0@) == unspent_outputs(transaction_views(txs@)),
        forall|id: Seq<char>, idx: i32|
            #![trigger ref_views(r.1@).contains((id, idx))]
            ref_views(r.1@).contains((id, idx)) <==> spent_in(transaction_views(txs@), id, idx),
{
    let ghost visit = transaction_views(txs@);
    let mut out: Vec<UnspentOutput> = Vec::new();
    let mut spent: Vec<OutputRef> = Vec::new();
    let mut p: usize = 0;
    while p < txs.len()
        invariant
            p <= txs@.len(),
            visit == transaction_views(txs@),
            unspent_views(out@) == unspent_upto(visit, p as int),
            forall|id: Seq<char>, idx: i32|
                #![trigger ref_views(spent@).contains((id, idx))]
                #![trigger spent_before(visit, p as int, id, idx)]
                ref_views(spent@).contains((id, idx)) <==> spent_before(visit, p as int, id, idx),
        decreases txs@.len() - p,
    {
        let tx = &txs[p];
        let ghost base = unspent_views(out@);
        assert(tx@ == visit[p as int]);
        let first = match find_tx(txs, &tx.id) {
            Some(first) => first,
            None => {
                assert(false);
                p
            },
        };
        proof {
            if first < p {
                assert(visit[first as int].id == tx@.id);
            }
            if first > p {
                assert(visit[p as int].id != tx@.id);
            }
        }
        assert((first < p) == met_before(visit, p as int, tx@.id));
        let mut k: usize = if first < p {
            tx.vout.len()
        } else {
            0
        };
        assert(unspent_views(out@) =~= base + (if first < p {
            Seq::<UnspentOutputView>::empty()
        } else {
            unspent_prefix(visit, p as int, 0)
        }));
        while k < tx.vout.len()
            invariant
                k <= tx.vout@.len(),
                p < txs@.len(),
                tx@ == visit[p as int],
                tx@.vout.len() == tx.vout@.len(),
                first < p ==> k == tx.vout@.len(),
                unspent_views(out@) == base + (if first < p {
                    Seq::<UnspentOutputView>::empty()
                } else {
                    unspent_prefix(visit, p as int, k as int)
                }),
                forall|id: Seq<char>, idx: i32|
                    #![trigger ref_views(spent@).contains((id, idx))]
                    #![trigger spent_before(visit, p as int, id, idx)]
                    ref_views(spent@).contains((id, idx)) <==> spent_before(
                        visit,
                        p as int,
                        id,
                        idx,
                    ),
            decreases tx.vout@.len() - k,
        {
            let ghost last = unspent_views(out@);
            if k <= i32::MAX as usize {
                let taken = holds_ref(&spent, &tx.id, k as i32);
                if !taken {
                    let entry = UnspentOutput {
                        txid: tx.id.clone(),
                        index: k as i32,
                        output: tx.vout[k].clone(),
                    };
                    out.push(entry);
                    assert(unspent_views(out@) =~= last.push(entry@));
                }
            }
            assert(unspent_views(out@) =~= base + unspent_prefix(visit, p as int, k + 1));
            k += 1;
        }
        assert(unspent_views(out@) == base + unspent_of(visit, p as int));
        if !tx.is_coinbase() {
            let ghost before = ref_views(spent@);
            let mut j: usize = 0;
            while j < tx.vin.len()
                invariant
                    j <= tx.vin@.len(),
                    p < txs@.len(),
                    tx@ == visit[p as int],
                    tx@.vin.len() == tx.vin@.len(),
                    !tx@.is_coinbase(),
                    forall|id: Seq<char>, idx: i32|
                        #![trigger ref_views(spent@).contains((id, idx))]
                        ref_views(spent@).contains((id, idx)) <==> (before.contains((id, idx))
                            || exists|i: int|
                            0 <= i < j && (#[trigger] tx@.vin[i]).txid == id && tx@.vin[i].vout
                                == idx),
                decreases tx.vin@.len() - j,
            {
                let ghost last = ref_views(spent@);
                let input = &tx.vin[j];
                spent.push((input.txid.clone(), input.vout));
                proof {
                    let now = ref_views(spent@);
                    assert forall|id: Seq<char>, idx: i32|
                        #![trigger now.contains((id, idx))]
                        now.contains((id, idx)) <==> (before.contains((id, idx)) || exists|i: int|
                            0 <= i < j + 1 && (#[trigger] tx@.vin[i]).txid == id && tx@.vin[i].vout
                                == idx) by {
                        if now.contains((id, idx)) {
                            let w = choose|w: int| 0 <= w < now.len() && now[w] == (id, idx);
                            if w < last.len() {
                                assert(last[w] == (id, idx));
                            } else {
                                assert(tx@.vin[j as int].txid == id);
                            }
                        }
                        if last.contains((id, idx)) {
                            let w = choose|w: int| 0 <= w < last.len() && last[w] == (id, idx);
                            assert(now[w] == (id, idx));
                        }
                        if exists|i: int|
                            0 <= i < j + 1 && (#[trigger] tx@.vin[i]).txid == id && tx@.vin[i].vout
                                == idx {
                            let i = choose|i: int|
                                0 <= i < j + 1 && (#[trigger] tx@.vin[i]).txid == id
                                    && tx@.vin[i].vout == idx;
                            if i == j {
                                assert(now[last.len() as int] == (id, idx));
                            } else {
                            }
                        }
                    }
                }
                j += 1;
            }
        }
        proof {
            assert forall|id: Seq<char>, idx: i32|
                #![trigger ref_views(spent@).contains((id, idx))]
                #![trigger spent_before(visit, p + 1, id, idx)]
                ref_views(spent@).contains((id, idx)) <==> spent_before(
                    visit,
                    p + 1,
                    id,
                    idx,
                ) by {
                lemma_spent_step(visit, p as int, id, idx);
            }
        }
        p += 1;
    }
    (out, spent)
}

/// What is spent before place `p + 1` is what is spent before `p` and what
/// the transaction at `p` spends.
pub proof fn lemma_spent_step(visit: Seq<TransactionView>, p: int, txid: Seq<char>, index: i32)
    requires
        0 <= p < visit.len(),
    ensures
        spent_before(visit, p + 1, txid, index) <==> (spent_before(visit, p, txid, index)
            || spends(visit[p], txid, index)),
{
    if spent_before(visit, p + 1, txid, index) {
        let q = choose|q: int|
            0 <= q < p + 1 && q < visit.len() && spends(#[trigger] visit[q], txid, index);
    }
    if spent_before(visit, p, txid, index) {
        let q = choose|q: int|
            0 <= q < p && q < visit.len() && spends(#[trigger] visit[q], txid, index);
    }
}

/// No two entries refer to the same output.
pub open spec fn distinct_refs(entries: Seq<UnspentOutputView>) -> bool {
    forall|a: int, b: int|
        0 <= a < b < entries.len() ==> !((#[trigger] entries[a]).txid == (
        #[trigger] entries[b]).txid && entries[a].index == entries[b].index)
}

/// The entry stands for an output of the transaction at place `p` of the
/// walk: that transaction is the first on the walk with the entry's id, it
/// has the output that the entry names and holds, and no transaction met
/// before it spends that output.
pub open spec fn is_listed_at(visit: Seq<TransactionView>, p: int, entry: UnspentOutputView)
    -> bool {
    &&& crate::transaction::is_first_tx(visit, entry.txid, p)
    &&& 0 <= entry.index < visit[p].vout.len()
    &&& entry.output == visit[p].vout[entry.index as int]
    &&& !spent_before(visit, p, entry.txid, entry.index)
}

/// The entry stands for an output of a transaction of the walk.
pub open spec fn is_listed(visit: Seq<TransactionView>, entry: UnspentOutputView) -> bool {
    exists|p: int| #[trigger] is_listed_at(visit, p, entry)
}

/// The entry stands for an output of a transaction that the walk meets
/// before place `n`.
pub open spec fn is_listed_before(visit: Seq<TransactionView>, n: int, entry: UnspentOutputView)
    -> bool {
    exists|p: int| 0 <= p < n && #[trigger] is_listed_at(visit, p, entry)
}

/// Every entry stands for an output of a transaction of the walk.
pub open spec fn sourced(entries: Seq<UnspentOutputView>, visit: Seq<TransactionView>) -> bool {
    forall|j: int| 0 <= j < entries.len() ==> is_listed(visit, #[trigger] entries[j])
}

/// Among the first `n` entries one is locked to `key_hash` and is referred
/// to by `r`.
pub open spec fn taken_from(
    entries: Seq<UnspentOutputView>,
    key_hash: Seq<u8>,
    n: int,
    r: (Seq<char>, i32),
) -> bool {
    exists|k: int|
        0 <= k < n && k < entries.len() && (#[trigger] entries[k]).txid == r.0 && entries[k].index
            == r.1 && entries[k].output.pub_key_hash == key_hash
}

/// Every reference is that of an entry locked to `key_hash`.
pub open spec fn all_listed(
    refs: Seq<(Seq<char>, i32)>,
    entries: Seq<UnspentOutputView>,
    key_hash: Seq<u8>,
) -> bool {
    forall|j: int|
        0 <= j < refs.len() ==> taken_from(entries, key_hash, entries.len() as int, #[trigger] refs[j])
}

/// An id has one first place on a walk.
pub proof fn lemma_first_tx_is(visit: Seq<TransactionView>, id: Seq<char>, p: int)
    requires
        crate::transaction::is_first_tx(visit, id, p),
    ensures
        crate::transaction::first_tx(visit, id) == p,
        has_tx(visit, id),
{
    let c = crate::transaction::first_tx(visit, id);
    assert(crate::transaction::is_first_tx(visit, id, c));
    if c < p {
        assert(visit[c].id != id);
    }
    if p < c {
        assert(visit[p].id != id);
    }
    assert(visit[p].id == id);
}

/// Every entry among the unspent outputs of the first `p` transactions of a
/// walk stands for an output of one of them.
pub proof fn lemma_upto_listed(visit: Seq<TransactionView>, p: int)
    requires
        p <= visit.len(),
    ensures
        forall|j: int|
            0 <= j < unspent_upto(visit, p).len() ==> is_listed_before(
                visit,
                p,
                #[trigger] unspent_upto(visit, p)[j],
            ),
    decreases p,
{
    if p > 0 {
        lemma_upto_listed(visit, p - 1);
        let before = unspent_upto(visit, p - 1);
        let added = unspent_of(visit, p - 1);
        lemma_prefix_entries(visit, p - 1, visit[p - 1].vout.len() as int);
        assert forall|j: int| 0 <= j < unspent_upto(visit, p).len() implies is_listed_before(
            visit,
            p,
            #[trigger] unspent_upto(visit, p)[j],
        ) by {
            let e = unspent_upto(visit, p)[j];
            if j < before.len() {
                assert(e == before[j]);
                assert(is_listed_before(visit, p - 1, before[j]));
                let q = choose|q: int| 0 <= q < p - 1 && #[trigger] is_listed_at(visit, q, before[j]);
                assert(is_listed_at(visit, q, e));
            } else {
                assert(e == added[j - before.len()]);
                assert(!met_before(visit, p - 1, visit[p - 1].id));
                assert forall|w: int| 0 <= w < p - 1 implies (#[trigger] visit[w]).id != e.txid by {
                    if visit[w].id == e.txid {
                        assert(met_before(visit, p - 1, visit[p - 1].id));
                    }
                }
                assert(is_listed_at(visit, p - 1, e));
            }
        }
    }
}

/// The unspent outputs of the first `p` transactions of a walk hold no
/// reference twice.
pub proof fn lemma_upto_distinct(visit: Seq<TransactionView>, p: int)
    requires
        p <= visit.len(),
    ensures
        distinct_refs(unspent_upto(visit, p)),
    decreases p,
{
    if p > 0 {
        lemma_upto_distinct(visit, p - 1);
        lemma_upto_listed(visit, p - 1);
        lemma_upto_listed(visit, p);
        let all = unspent_upto(visit, p);
        let before = unspent_upto(visit, p - 1);
        let added = unspent_of(visit, p - 1);
        lemma_prefix_entries(visit, p - 1, visit[p - 1].vout.len() as int);
        assert forall|a: int, b: int| 0 <= a < b < all.len() implies !((#[trigger] all[a]).txid == (
        #[trigger] all[b]).txid && all[a].index == all[b].index) by {
            if b < before.len() {
                assert(all[a] == before[a] && all[b] == before[b]);
            } else if a >= before.len() {
                assert(all[a] == added[a - before.len()]);
                assert(all[b] == added[b - before.len()]);
            } else {
                assert(all[a] == before[a]);
                assert(all[b] == added[b - before.len()]);
                assert(is_listed_before(visit, p - 1, before[a]));
                let q = choose|q: int| 0 <= q < p - 1 && #[trigger] is_listed_at(visit, q, before[a]);
                if all[a].txid == all[b].txid {
                    assert(visit[q].id == all[a].txid);
                    assert(all[b].txid == visit[p - 1].id);
                    assert(met_before(visit, p - 1, visit[p - 1].id));
                }
            }
        }
    }
}

/// The unspent outputs of a walk hold no reference twice, and each stands
/// for an output of a transaction of the walk.
pub proof fn lemma_unspent_well_formed(visit: Seq<TransactionView>)
    ensures
        distinct_refs(unspent_outputs(visit)),
        sourced(unspent_outputs(visit), visit),
{
    lemma_upto_distinct(visit, visit.len() as int);
    lemma_upto_listed(visit, visit.len() as int);
    assert forall|j: int| 0 <= j < unspent_outputs(visit).len() implies is_listed(
        visit,
        #[trigger] unspent_outputs(visit)[j],
    ) by {
        let e = unspent_outputs(visit)[j];
        assert(is_listed_before(visit, visit.len() as int, e));
        let q = choose|q: int| 0 <= q < visit.len() && #[trigger] is_listed_at(visit, q, e);
        assert(is_listed_at(visit, q, e));
    }
}

/// Every reference taken is that of an entry locked to the key hash, and
/// where no two entries share a reference, no reference is taken twice.
pub proof fn lemma_taken_are_entries(
    entries: Seq<UnspentOutputView>,
    key_hash: Seq<u8>,
    amount: i32,
    n: int,
)
    requires
        n <= entries.len(),
    ensures
        forall|j: int|
            0 <= j < spendable_upto(entries, key_hash, amount, n).1.len() ==> taken_from(
                entries,
                key_hash,
                n,
                #[trigger] spendable_upto(entries, key_hash, amount, n).1[j],
            ),
        distinct_refs(entries) ==> spendable_upto(entries, key_hash, amount, n).1.no_duplicates(),
    decreases n,
{
    if n > 0 {
        lemma_taken_are_entries(entries, key_hash, amount, n - 1);
        let before = spendable_upto(entries, key_hash, amount, n - 1);
        let now = spendable_upto(entries, key_hash, amount, n);
        let entry = entries[n - 1];
        assert forall|j: int| 0 <= j < now.1.len() implies taken_from(
            entries,
            key_hash,
            n,
            #[trigger] now.1[j],
        ) by {
            if j < before.1.len() {
                assert(now.1[j] == before.1[j]);
                assert(taken_from(entries, key_hash, n - 1, before.1[j]));
            } else {
                assert(now.1[j] == (entry.txid, entry.index));
            }
        }
        if distinct_refs(entries) && now.1.len() > before.1.len() {
            assert forall|a: int, b: int| 0 <= a < now.1.len() && 0 <= b < now.1.len() && a
                != b implies now.1[a] != now.1[b] by {
                if a < before.1.len() && b < before.1.len() {
                } else {
                    let low = if a < b {
                        a
                    } else {
                        b
                    };
                    assert(taken_from(entries, key_hash, n - 1, before.1[low]));
                    let k = choose|k: int|
                        0 <= k < n - 1 && k < entries.len() && (#[trigger] entries[k]).txid
                            == before.1[low].0 && entries[k].index == before.1[low].1
                            && entries[k].output.pub_key_hash == key_hash;
                    assert(!(entries[k].txid == entries[n - 1].txid && entries[k].index
                        == entries[n - 1].index));
                }
            }
        }
    }
}

/// The index that a block leaves of the entries held so far: the block's own
/// unspent outputs come first, and the entries that the block spends or
/// replaces leave.
pub fn apply_block(entries: &Vec<UnspentOutput>, block: &Block) -> (r: Vec<UnspentOutput>)
    ensures
        unspent_views(r@) == applied(unspent_views(entries@), block@.transactions),
{
    let txs = block.get_transaction();
    let ghost batch = transaction_views(txs@);
    let ghost held = unspent_views(entries@);
    let (mut out, spent) = scan(txs);
    let ghost fresh = unspent_views(out@);
    let mut i: usize = 0;
    assert(unspent_views(out@) =~= fresh + kept_upto(held, batch, 0));
    while i < entries.len()
        invariant
            i <= entries@.len(),
            held == unspent_views(entries@),
            batch == transaction_views(txs@),
            unspent_views(out@) == fresh + kept_upto(held, batch, i as int),
            forall|id: Seq<char>, idx: i32|
                #![trigger ref_views(spent@).contains((id, idx))]
                ref_views(spent@).contains((id, idx)) <==> spent_in(batch, id, idx),
        decreases entries@.len() - i,
    {
        let entry = &entries[i];
        assert(entry@ == held[i as int]);
        let ghost last = unspent_views(out@);
        if !holds_ref(&spent, &entry.txid, entry.index) && find_tx(txs, &entry.txid).is_none() {
            out.push(entry.clone());
            assert(unspent_views(out@) =~= last.push(entry@));
        }
        assert(unspent_views(out@) =~= fresh + kept_upto(held, batch, i + 1));
        i += 1;
    }
    out
}

/// Collects entries locked to `pub_key_hash`, in order, until their total
/// reaches `amount` or the entries are exhausted. Gives the total and the
/// references of the entries taken.
pub fn collect_spendable(entries: &Vec<UnspentOutput>, pub_key_hash: &[u8], amount: i32) -> (r: (
    i128,
    Vec<OutputRef>,
))
    ensures
        (r.0 as int, ref_views(r.1@)) == spendable(unspent_views(entries@), pub_key_hash@, amount),
        r.0 < amount ==> r.0 == balance_spec(unspent_views(entries@), pub_key_hash@) && ref_views(
            r.1@,
        ) == matching_upto(unspent_views(entries@), pub_key_hash@, entries@.len() as int),
        0 <= r.0 <= balance_spec(unspent_views(entries@), pub_key_hash@),
        r.0 - amount <= u32::MAX,
        r.0 < amount <==> balance_spec(unspent_views(entries@), pub_key_hash@) < amount,
        all_listed(ref_views(r.1@), unspent_views(entries@), pub_key_hash@),
        distinct_refs(unspent_views(entries@)) ==> ref_views(r.1@).no_duplicates(),
{
    let ghost held = unspent_views(entries@);
    let mut accumulated: i128 = 0;
    let mut taken: Vec<OutputRef> = Vec::new();
    let mut i: usize = 0;
    assert(ref_views(taken@) =~= Seq::empty());
    while i < entries.len()
        invariant
            i <= entries@.len(),
            held == unspent_views(entries@),
            0 <= accumulated <= (i as int) * 0x1_0000_0000,
            (accumulated as int, ref_views(taken@)) == spendable_upto(
                held,
                pub_key_hash@,
                amount,
                i as int,
            ),
        decreases entries@.len() - i,
    {
        let entry = &entries[i];
        assert(entry@ == held[i as int]);
        if entry.output.is_locked_with_key(pub_key_hash) && accumulated < amount as i128 {
            let ghost last = ref_views(taken@);
            accumulated = accumulated + entry.output.value as i128;
            taken.push((entry.txid.clone(), entry.index));
            assert(ref_views(taken@) =~= last.push((entry@.txid, entry@.index)));
        }
        i += 1;
    }
    proof {
        if accumulated < amount {
            lemma_short_total_is_exhaustive(held, pub_key_hash@, amount, i as int);
        }
        lemma_total_settles(held, pub_key_hash@, amount, i as int);
        lemma_taken_are_entries(held, pub_key_hash@, amount, i as int);
    }
    (accumulated, taken)
}

/// The outputs of the entries locked to `pub_key_hash`, in order.
pub fn outputs_locked_to(entries: &Vec<UnspentOutput>, pub_key_hash: &[u8]) -> (r: Vec<TXOutput>)
    ensures
        crate::tx::output_views(r@) == outputs_upto(
            unspent_views(entries@),
            pub_key_hash@,
            entries@.len() as int,
        ),
{
    let ghost held = unspent_views(entries@);
    let mut out: Vec<TXOutput> = Vec::new();
    let mut i: usize = 0;
    assert(crate::tx::output_views(out@) =~= outputs_upto(held, pub_key_hash@, 0));
    while i < entries.len()
        invariant
            i <= entries@.len(),
            held == unspent_views(entries@),
            crate::tx::output_views(out@) == outputs_upto(held, pub_key_hash@, i as int),
        decreases entries@.len() - i,
    {
        let entry = &entries[i];
        assert(entry@ == held[i as int]);
        if entry.output.is_locked_with_key(pub_key_hash) {
            let ghost last = crate::tx::output_views(out@);
            out.push(entry.output.clone());
            assert(crate::tx::output_views(out@) =~= last.push(entry@.output));
        }
        i += 1;
    }
    out
}

/// The sum of the values of the entries locked to `pub_key_hash`.
pub fn balance_of(entries: &Vec<UnspentOutput>, pub_key_hash: &[u8]) -> (r: i128)
    ensures
        r == balance_spec(unspent_views(entries@), pub_key_hash@),
{
    let ghost held = unspent_views(entries@);
    let mut total: i128 = 0;
    let mut i: usize = 0;
    while i < entries.len()
        invariant
            i <= entries@.len(),
            held == unspent_views(entries@),
            0 <= total <= (i as int) * 0x1_0000_0000,
            total == balance_upto(held, pub_key_hash@, i as int),
        decreases entries@.len() - i,
    {
        let entry = &entries[i];
        assert(entry@ == held[i as int]);
        if entry.output.is_locked_with_key(pub_key_hash) {
            total = total + entry.output.value as i128;
        }
        i += 1;
    }
    total
}

/// The index of unspent outputs, together with the ledger it is derived
/// from. The index is current in every state: it holds exactly the unspent
/// outputs of its ledger, in the order of a walk from the head back to the
/// genesis block.
#[derive(Debug)]
pub struct UTXOSet {
    blockchain: Blockchain,
    utxos: Vec<UnspentOutput>,
}

impl View for UTXOSet {
    type V = Seq<UnspentOutputView>;

    closed spec fn view(&self) -> Seq<UnspentOutputView> {
        unspent_views(self.utxos@)
    }
}

impl UTXOSet {
    #[verifier::type_invariant]
    spec fn inv(self) -> bool {
        unspent_views(self.utxos@) == unspent_outputs(chain_transactions(self.blockchain@))
    }

    /// The ledger that the index is derived from.
    pub closed spec fn ledger(&self) -> Seq<BlockView> {
        self.blockchain@
    }

    /// The index holds exactly the unspent outputs of its ledger, in the
    /// order of a walk from the head back to the genesis block.
    pub open spec fn is_current(&self) -> bool {
        self@ == unspent_outputs(chain_transactions(self.ledger()))
    }

    /// The index holds what an index may hold: it is current, no reference
    /// occurs twice in it, and every entry stands for an output of a
    /// transaction of the ledger.
    pub open spec fn well_formed(&self) -> bool {
        &&& self.is_current()
        &&& distinct_refs(self@)
        &&& sourced(self@, chain_transactions(self.ledger()))
    }

    /// The index of the given ledger.
    pub fn new(blockchain: Blockchain) -> (r: UTXOSet)
        ensures
            r.ledger() == blockchain@,
            r.well_formed(),
    {
        let txs = blockchain.transactions();
        let utxos = find_unspent(&txs);
        proof {
            lemma_unspent_well_formed(chain_transactions(blockchain@));
        }
        UTXOSet { blockchain, utxos }
    }

    /// Rebuilds the index from the ledger. As the index is current in every
    /// state, this gives the index that was there.
    pub fn reindex(&mut self)
        ensures
            final(self).ledger() == old(self).ledger(),
            final(self)@ == old(self)@,
            final(self).well_formed(),
    {
        proof {
            use_type_invariant(&*self);
            lemma_unspent_well_formed(chain_transactions(self.blockchain@));
        }
        let txs = self.blockchain.transactions();
        self.utxos = find_unspent(&txs);
    }

    /// The ledger that the index is derived from.
    pub fn blockchain(&self) -> (r: &Blockchain)
        ensures
            r@ == self.ledger(),
    {
        &self.blockchain
    }

    /// Mines a block over `transactions` on the head of the ledger, stamped
    /// with the system clock's time, and brings the index up to date with
    /// it: the block becomes the head, its unspent outputs enter the index
    /// and the entries it spends or replaces leave. An error is `Clock`, or
    /// the error that adding the block at the time read fails with; on an
    /// error nothing changes.
    pub fn add_block(&mut self, transactions: Vec<Transaction>) -> (r: Result<Block, ChainError>)
        ensures
            final(self).well_formed(),
            match r {
                Ok(b) => {
                    &&& added_to(
                        b@,
                        old(self).ledger(),
                        transaction_views(transactions@),
                        b@.timestamp,
                    )
                    &&& final(self).ledger() == old(self).ledger().push(b@)
                    &&& final(self)@ == applied(old(self)@, transaction_views(transactions@))
                },
                Err(e) => {
                    &&& final(self).ledger() == old(self).ledger()
                    &&& final(self)@ == old(self)@
                    &&& e == ChainError::Clock || exists|timestamp: u128| #[trigger]
                        adding_fails(
                            old(self).ledger(),
                            transaction_views(transactions@),
                            timestamp,
                            e,
                        )
                },
            },
    {
        let timestamp = match crate::clock::current_millis() {
            Ok(timestamp) => timestamp,
            Err(e) => {
                proof {
                    use_type_invariant(&*self);
                    lemma_unspent_well_formed(chain_transactions(self.blockchain@));
                }
                return Err(e);
            },
        };
        let ghost txs = transaction_views(transactions@);
        let r = self.add_block_at(transactions, timestamp);
        proof {
            if let Err(e) = r {
                assert(adding_fails(old(self).ledger(), txs, timestamp, e));
            }
        }
        r
    }

    /// Mines a block over `transactions` on the head of the ledger, stamped
    /// with `timestamp`, and brings the index up to date with it: the block
    /// becomes the head, its unspent outputs enter the index and the entries
    /// it spends or replaces leave. It fails where the head stands at the
    /// greatest height or mining fails, and then nothing changes.
    pub fn add_block_at(&mut self, transactions: Vec<Transaction>, timestamp: u128) -> (r: Result<
        Block,
        ChainError,
    >)
        ensures
            final(self).well_formed(),
            match r {
                Ok(b) => {
                    &&& added_to(
                        b@,
                        old(self).ledger(),
                        transaction_views(transactions@),
                        timestamp,
                    )
                    &&& final(self).ledger() == old(self).ledger().push(b@)
                    &&& final(self)@ == applied(old(self)@, transaction_views(transactions@))
                },
                Err(e) => {
                    &&& final(self).ledger() == old(self).ledger()
                    &&& final(self)@ == old(self)@
                    &&& adding_fails(
                        old(self).ledger(),
                        transaction_views(transactions@),
                        timestamp,
                        e,
                    )
                },
            },
    {
        proof {
            use_type_invariant(&*self);
            lemma_unspent_well_formed(chain_transactions(self.blockchain@));
        }
        let ghost ledger = self.blockchain@;
        let mut blockchain = self.blockchain.clone();
        let block = match blockchain.add_block_at(transactions, timestamp) {
            Ok(b) => b,
            Err(e) => {
                return Err(e);
            },
        };
        let utxos = apply_block(&self.utxos, &block);
        proof {
            lemma_walk_of_longer_chain(ledger, block@, 0);
            lemma_apply_is_rebuild(block@.transactions, chain_transactions(ledger));
            lemma_unspent_well_formed(chain_transactions(blockchain@));
        }
        *self = UTXOSet { blockchain, utxos };
        Ok(block)
    }

    /// The entries of the index, in order. No reference occurs twice, and
    /// every entry stands for an output of a transaction of the ledger.
    pub fn get_utxos(&self) -> (r: &Vec<UnspentOutput>)
        ensures
            unspent_views(r@) == self@,
            self.well_formed(),
    {
        proof {
            use_type_invariant(self);
            lemma_unspent_well_formed(chain_transactions(self.blockchain@));
        }
        &self.utxos
    }

    /// Collects outputs locked to `pub_key_hash` until their total reaches
    /// `amount` or the index is exhausted. Gives the total and the
    /// references of the outputs taken, in the index's order: each is the
    /// reference of an entry locked to `pub_key_hash`, and none occurs
    /// twice.
    pub fn find_spendable_outputs(&self, pub_key_hash: &[u8], amount: i32) -> (r: (
        i128,
        Vec<OutputRef>,
    ))
        ensures
            self.well_formed(),
            (r.0 as int, ref_views(r.1@)) == spendable(self@, pub_key_hash@, amount),
            r.0 < amount ==> r.0 == balance_spec(self@, pub_key_hash@) && ref_views(r.1@)
                == matching_upto(self@, pub_key_hash@, self@.len() as int),
            0 <= r.0 <= balance_spec(self@, pub_key_hash@),
            r.0 - amount <= u32::MAX,
            r.0 < amount <==> balance_spec(self@, pub_key_hash@) < amount,
            all_listed(ref_views(r.1@), self@, pub_key_hash@),
            ref_views(r.1@).no_duplicates(),
    {
        proof {
            use_type_invariant(self);
            lemma_unspent_well_formed(chain_transactions(self.blockchain@));
        }
        collect_spendable(&self.utxos, pub_key_hash, amount)
    }

    /// The outputs locked to `pub_key_hash`, in the index's order.
    pub fn find_utxo(&self, pub_key_hash: &[u8]) -> (r: Vec<TXOutput>)
        ensures
            crate::tx::output_views(r@) == outputs_upto(self@, pub_key_hash@, self@.len() as int),
    {
        outputs_locked_to(&self.utxos, pub_key_hash)
    }

    /// The balance of a key hash: the sum of the values of all outputs in the
    /// index that are locked to it.
    pub fn balance(&self, pub_key_hash: &[u8]) -> (r: i128)
        ensures
            r == balance_spec(self@, pub_key_hash@),
    {
        balance_of(&self.utxos, pub_key_hash)
    }
}

impl Clone for UTXOSet {
    fn clone(&self) -> (r: Self)
        ensures
            r@ == self@,
            r.ledger() == self.ledger(),
    {
        proof {
            use_type_invariant(self);
        }
        let utxos = self.utxos.clone();
        assert(unspent_views(utxos@) =~= unspent_views(self.utxos@));
        UTXOSet { blockchain: self.blockchain.clone(), utxos }
    }
}

} // verus!
