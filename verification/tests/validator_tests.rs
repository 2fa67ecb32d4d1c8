use kosher_chain::accounts::AccountState;
use kosher_chain::blockchain::Blockchain;
use kosher_chain::mempool::Mempool;
use kosher_chain::validator::{propose_block, BLOCK_TRANSACTION_LIMIT};
use kosher_chain::block::Transaction;
use kosher_chain::wallet::Wallet;

#[test]
fn an_empty_pool_proposes_no_block() {
    let validator = Wallet::new();
    let chain = Blockchain::new(vec![validator.public_key_hex()]);
    let mut pool = Mempool::new();
    let proposed = propose_block(&chain, &mut pool, &validator, 1_700_000_001);
    assert!(proposed.is_none());
    assert_eq!(pool.len(), 0);
}

#[test]
fn a_proposed_block_links_to_the_tip_and_drains_the_pool() {
    let validator = Wallet::new();
    let alice = Wallet::new();
    let mut chain = Blockchain::new(vec![validator.public_key_hex()]);
    chain.state.set_account(
        &alice.public_key_hex(),
        AccountState {
            nonce: 0,
            balance: 100,
        },
    );
    let mut pool = Mempool::new();
    pool.add_transaction(Transaction::new(&alice, "bob".to_string(), 10, 0))
        .unwrap();
    pool.add_transaction(Transaction::new(&alice, "bob".to_string(), 10, 1))
        .unwrap();

    let tip_digest = chain.tip_header().digest_string();
    let block = propose_block(&chain, &mut pool, &validator, 1_700_000_042).unwrap();
    assert_eq!(pool.len(), 0);
    assert_eq!(block.header.id, 1);
    assert_eq!(block.header.timestamp, 1_700_000_042);
    assert_eq!(block.header.previous_hash, tip_digest);
    assert_eq!(block.header.validator_pubkey, validator.public_key_hex());
    assert_eq!(block.transactions.len(), 2);

    // The proposer does not commit its own block; it flows through the
    // same validation path and succeeds there.
    assert_eq!(chain.validate_and_add_block(block), Ok(()));
    assert_eq!(chain.state.get_account(&alice.public_key_hex()).balance, 80);
}

#[test]
fn a_proposal_drains_at_most_the_block_transaction_limit() {
    let validator = Wallet::new();
    let alice = Wallet::new();
    let chain = Blockchain::new(vec![validator.public_key_hex()]);
    let mut pool = Mempool::new();
    let over_limit = (BLOCK_TRANSACTION_LIMIT + 1) as u64;
    for nonce in 0..over_limit {
        pool.add_transaction(Transaction::new(&alice, "bob".to_string(), 1, nonce))
            .unwrap();
    }
    let block = propose_block(&chain, &mut pool, &validator, 1_700_000_001).unwrap();
    assert_eq!(block.transactions.len(), BLOCK_TRANSACTION_LIMIT);
    assert_eq!(pool.len(), 1);
}

#[test]
fn drained_transactions_stay_out_of_the_pool_even_if_the_block_is_lost() {
    // Dissemination is fire-and-forget: dropping the proposed block does
    // not restore the drained transactions.
    let validator = Wallet::new();
    let alice = Wallet::new();
    let chain = Blockchain::new(vec![validator.public_key_hex()]);
    let mut pool = Mempool::new();
    let tx = Transaction::new(&alice, "bob".to_string(), 1, 0);
    pool.add_transaction(tx.clone()).unwrap();
    let proposed = propose_block(&chain, &mut pool, &validator, 1_700_000_001);
    drop(proposed);
    assert_eq!(pool.len(), 0);
    // The transaction can be re-gossiped and staged again later.
    assert!(pool.add_transaction(tx).is_ok());
}
