//! The pending-transaction pool: a bounded, deduplicated staging area for
//! transactions that are not yet committed.
//!
//! Transactions are identified by their hash alone: the pool never holds
//! two entries with the same hash, rejects a duplicate with
//! `AlreadyExists`, and rejects any insertion at capacity with `PoolFull`
//! (capacity is checked before the duplicate check). Selection returns a
//! bounded prefix with no ordering policy, and removal by hash is
//! idempotent.

use vstd::prelude::*;
use crate::block::{Transaction, TxView};

verus! {

/// Why the pool refused a transaction.
#[derive(Clone, Copy, Debug, PartialEq, Eq, Structural)]
pub enum MempoolError {
    PoolFull,
    AlreadyExists,
}

/// The configured pool bound.
pub const MAX_MEMPOOL_SIZE: usize = 5000;

/// Whether some transaction in `txs` carries the hash `h`.
pub open spec fn contains_hash(txs: Seq<TxView>, h: Seq<char>) -> bool {
    exists|i: int| 0 <= i < txs.len() && txs[i].hash == h
}

/// No two transactions in `txs` share a hash.
pub open spec fn distinct_hashes(txs: Seq<TxView>) -> bool {
    forall|i: int, j: int| 0 <= i < j < txs.len() ==> txs[i].hash != txs[j].hash
}

/// `txs` with every transaction whose hash occurs in `rem` taken out,
/// order preserved.
pub open spec fn remove_by_hash(txs: Seq<TxView>, rem: Seq<TxView>) -> Seq<TxView>
    decreases txs.len(),
{
    if txs.len() == 0 {
        Seq::<TxView>::empty()
    } else if contains_hash(rem, txs.last().hash) {
        remove_by_hash(txs.drop_last(), rem)
    } else {
        remove_by_hash(txs.drop_last(), rem).push(txs.last())
    }
}

/// The pending pool.
pub struct Mempool {
    transactions: Vec<Transaction>,
    max_size: usize,
}

impl Mempool {
    /// The staged transactions, in storage order.
    pub closed spec fn txs(self) -> Seq<TxView> {
        self.transactions.deep_view()
    }

    /// The configured bound.
    pub closed spec fn capacity(self) -> usize {
        self.max_size
    }

    /// No two staged transactions share a hash.
    pub open spec fn wf(self) -> bool {
        distinct_hashes(self.txs())
    }

    /// An empty pool with the configured bound.
    pub fn new() -> (r: Mempool)
        ensures
            r.wf(),
            r.txs() == Seq::<TxView>::empty(),
            r.capacity() == MAX_MEMPOOL_SIZE,
    {
        Mempool { transactions: Vec::new(), max_size: MAX_MEMPOOL_SIZE }
    }

    /// An empty pool bounded at `max_size`.
    pub fn with_capacity(max_size: usize) -> (r: Mempool)
        ensures
            r.wf(),
            r.txs() == Seq::<TxView>::empty(),
            r.capacity() == max_size,
    {
        Mempool { transactions: Vec::new(), max_size }
    }

    /// How many transactions are staged.
    pub fn len(&self) -> (n: usize)
        ensures
            n == self.txs().len(),
    {
        self.transactions.len()
    }

    /// Stages a transaction: refused with `PoolFull` at capacity, with
    /// `AlreadyExists` when a transaction with the same hash is staged,
    /// and appended otherwise.
    pub fn add_transaction(&mut self, tx: Transaction) -> (r: Result<(), MempoolError>)
        requires
            old(self).wf(),
        ensures
            final(self).wf(),
            final(self).capacity() == old(self).capacity(),
            match r {
                Ok(()) => {
                    &&& old(self).txs().len() < old(self).capacity()
                    &&& !contains_hash(old(self).txs(), tx@.hash)
                    &&& final(self).txs() == old(self).txs().push(tx@)
                },
                Err(MempoolError::PoolFull) => {
                    &&& old(self).txs().len() >= old(self).capacity()
                    &&& final(self).txs() == old(self).txs()
                },
                Err(MempoolError::AlreadyExists) => {
                    &&& old(self).txs().len() < old(self).capacity()
                    &&& contains_hash(old(self).txs(), tx@.hash)
                    &&& final(self).txs() == old(self).txs()
                },
            },
    {
        if self.transactions.len() >= self.max_size {
            return Err(MempoolError::PoolFull);
        }
        if contains_hash_exec(&self.transactions, &tx.hash) {
            return Err(MempoolError::AlreadyExists);
        }
        let ghost before = self.txs();
        self.transactions.push(tx);
        proof {
            assert(self.txs() =~= before.push(tx@));
        }
        Ok(())
    }

    /// Up to `count` staged transactions: the first `count` in storage
    /// order, with no further policy.
    pub fn get_transactions(&self, count: usize) -> (r: Vec<Transaction>)
        ensures
            r.deep_view() == self.txs().take(
                if count <= self.txs().len() {
                    count as int
                } else {
                    self.txs().len() as int
                },
            ),
    {
        let n = self.transactions.len();
        let m = if count <= n {
            count
        } else {
            n
        };
        let mut r: Vec<Transaction> = Vec::new();
        let mut i: usize = 0;
        while i < m
            invariant
                m <= self.txs().len(),
                i <= m,
                r.deep_view() =~= self.txs().take(i as int),
            decreases m - i,
        {
            r.push(self.transactions[i].clone());
            proof {
                assert(self.txs().take(i + 1).drop_last() =~= self.txs().take(i as int));
            }
            i = i + 1;
        }
        proof {
            assert(r.deep_view() =~= self.txs().take(m as int));
        }
        r
    }

    /// Evicts every staged transaction whose hash occurs in
    /// `transactions_to_remove`; hashes that are not staged are ignored.
    pub fn clear(&mut self, transactions_to_remove: &[Transaction])
        requires
            old(self).wf(),
        ensures
            final(self).wf(),
            final(self).capacity() == old(self).capacity(),
            final(self).txs() == remove_by_hash(
                old(self).txs(),
                transactions_to_remove.deep_view(),
            ),
    {
        let n = self.transactions.len();
        let mut kept: Vec<Transaction> = Vec::new();
        let mut i: usize = 0;
        while i < n
            invariant
                old(self).wf(),
                *self == *old(self),
                n == self.txs().len(),
                i <= n,
                kept.deep_view() =~= remove_by_hash(
                    self.txs().take(i as int),
                    transactions_to_remove.deep_view(),
                ),
            decreases n - i,
        {
            proof {
                assert(self.txs().take(i + 1).drop_last() =~= self.txs().take(i as int));
            }
            if !contains_hash_exec(transactions_to_remove, &self.transactions[i].hash) {
                kept.push(self.transactions[i].clone());
            }
            i = i + 1;
        }
        proof {
            assert(self.txs().take(n as int) =~= self.txs());
        }
        self.transactions = kept;
        proof {
            lemma_remove_by_hash_keeps(old(self).txs(), transactions_to_remove.deep_view());
        }
    }
}

impl Default for Mempool {
    /// An empty pool with the configured bound.
    fn default() -> (r: Self)
        ensures
            r.wf(),
            r.txs() == Seq::<TxView>::empty(),
            r.capacity() == MAX_MEMPOOL_SIZE,
    {
        Mempool::new()
    }
}

/// Whether some transaction in `txs` carries the hash `h`.
fn contains_hash_exec(txs: &[Transaction], h: &String) -> (r: bool)
    ensures
        r == contains_hash(txs.deep_view(), h@),
{
    let n = txs.len();
    let mut i: usize = 0;
    while i < n
        invariant
            n == txs@.len(),
            i <= n,
            forall|j: int| 0 <= j < i ==> txs.deep_view()[j].hash != h@,
        decreases n - i,
    {
        if txs[i].hash == *h {
            proof {
                assert(txs.deep_view()[i as int].hash == h@);
            }
            return true;
        }
        i = i + 1;
    }
    false
}

/// Removal keeps only transactions that were staged, so it preserves
/// hash-distinctness.
proof fn lemma_remove_by_hash_keeps(txs: Seq<TxView>, rem: Seq<TxView>)
    requires
        distinct_hashes(txs),
    ensures
        distinct_hashes(remove_by_hash(txs, rem)),
        forall|i: int|
            0 <= i < remove_by_hash(txs, rem).len() ==> contains_hash(
                txs,
                #[trigger] remove_by_hash(txs, rem)[i].hash,
            ),
    decreases txs.len(),
{
    if txs.len() > 0 {
        let dl = txs.drop_last();
        assert(forall|j: int| 0 <= j < dl.len() ==> dl[j] == txs[j]);
        assert(distinct_hashes(dl));
        lemma_remove_by_hash_keeps(dl, rem);
        let r = remove_by_hash(txs, rem);
        let rd = remove_by_hash(dl, rem);
        assert forall|i: int| 0 <= i < r.len() implies contains_hash(txs, r[i].hash) by {
            if i < rd.len() {
                assert(r[i] == rd[i]);
                assert(contains_hash(dl, rd[i].hash));
                let w = choose|w: int| 0 <= w < dl.len() && dl[w].hash == rd[i].hash;
                assert(txs[w].hash == r[i].hash);
            } else {
                assert(r[i] == txs.last());
                assert(txs[txs.len() - 1].hash == r[i].hash);
            }
        }
        if !contains_hash(rem, txs.last().hash) {
            assert forall|i: int, j: int| 0 <= i < j < r.len() implies r[i].hash != r[j].hash by {
                if j < r.len() - 1 {
                    assert(r[i] == rd[i] && r[j] == rd[j]);
                } else {
                    assert(r[i] == rd[i] && r[j] == txs.last());
                    assert(contains_hash(dl, rd[i].hash));
                    let w = choose|w: int| 0 <= w < dl.len() && dl[w].hash == rd[i].hash;
                    assert(txs[w].hash == dl[w].hash);
                    assert(txs[w].hash != txs[txs.len() - 1].hash);
                }
            }
        }
    }
}

} // verus!
