use kosher_chain::block::Transaction;
use kosher_chain::mempool::{Mempool, MempoolError, MAX_MEMPOOL_SIZE};
use kosher_chain::wallet::Wallet;

fn distinct_transactions(count: u64) -> Vec<Transaction> {
    let wallet = Wallet::new();
    (0..count)
        .map(|nonce| Transaction::new(&wallet, "bob".to_string(), 1, nonce))
        .collect()
}

#[test]
fn the_default_pool_is_bounded_at_the_configured_size() {
    let pool = Mempool::new();
    assert_eq!(pool.len(), 0);
    assert_eq!(MAX_MEMPOOL_SIZE, 5000);
}

#[test]
fn inserting_one_past_capacity_yields_pool_full_on_the_last_insert() {
    let mut pool = Mempool::with_capacity(3);
    let txs = distinct_transactions(4);
    assert_eq!(pool.add_transaction(txs[0].clone()), Ok(()));
    assert_eq!(pool.add_transaction(txs[1].clone()), Ok(()));
    assert_eq!(pool.add_transaction(txs[2].clone()), Ok(()));
    assert_eq!(
        pool.add_transaction(txs[3].clone()),
        Err(MempoolError::PoolFull)
    );
    assert_eq!(pool.len(), 3);
}

#[test]
fn inserting_the_same_transaction_twice_yields_already_exists() {
    let mut pool = Mempool::with_capacity(10);
    let txs = distinct_transactions(1);
    assert_eq!(pool.add_transaction(txs[0].clone()), Ok(()));
    assert_eq!(
        pool.add_transaction(txs[0].clone()),
        Err(MempoolError::AlreadyExists)
    );
    assert_eq!(pool.len(), 1);
}

#[test]
fn the_capacity_check_runs_before_the_duplicate_check() {
    let mut pool = Mempool::with_capacity(1);
    let txs = distinct_transactions(1);
    assert_eq!(pool.add_transaction(txs[0].clone()), Ok(()));
    assert_eq!(
        pool.add_transaction(txs[0].clone()),
        Err(MempoolError::PoolFull)
    );
}

#[test]
fn selection_returns_at_most_the_requested_count() {
    let mut pool = Mempool::new();
    for tx in distinct_transactions(5) {
        pool.add_transaction(tx).unwrap();
    }
    assert_eq!(pool.get_transactions(3).len(), 3);
    assert_eq!(pool.get_transactions(5).len(), 5);
    assert_eq!(pool.get_transactions(100).len(), 5);
    assert_eq!(pool.len(), 5);
}

#[test]
fn clearing_removes_exactly_the_given_hashes_and_is_idempotent() {
    let mut pool = Mempool::new();
    let txs = distinct_transactions(4);
    for tx in &txs {
        pool.add_transaction(tx.clone()).unwrap();
    }
    let drained = vec![txs[0].clone(), txs[2].clone()];
    pool.clear(&drained);
    assert_eq!(pool.len(), 2);
    let left = pool.get_transactions(10);
    assert_eq!(left[0].hash, txs[1].hash);
    assert_eq!(left[1].hash, txs[3].hash);
    pool.clear(&drained);
    assert_eq!(pool.len(), 2);
}

#[test]
fn clearing_an_absent_hash_is_a_no_op() {
    let mut pool = Mempool::new();
    let txs = distinct_transactions(2);
    pool.add_transaction(txs[0].clone()).unwrap();
    pool.clear(std::slice::from_ref(&txs[1]));
    assert_eq!(pool.len(), 1);
}

#[test]
fn the_default_pool_equals_a_fresh_one() {
    let pool = Mempool::default();
    assert_eq!(pool.len(), 0);
}
