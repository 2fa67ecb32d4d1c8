use kosher_chain::accounts::AccountState;
use kosher_chain::block::{Block, BlockHeader, Transaction};
use kosher_chain::blockchain::{Blockchain, ValidationError};
use kosher_chain::codec::zero_digest_string;
use kosher_chain::wallet::Wallet;

fn build_block(
    chain: &Blockchain,
    validator: &Wallet,
    txs: Vec<Transaction>,
    timestamp: i64,
) -> Block {
    let tip = chain.tip_header();
    let header = BlockHeader {
        id: tip.id + 1,
        timestamp,
        previous_hash: tip.digest_string(),
        validator_pubkey: validator.public_key_hex(),
        transactions_hash: Block::hash_transactions(&txs),
    };
    let header_hash = header.digest_string();
    let signature = validator.sign(header_hash.as_bytes());
    Block {
        header,
        transactions: txs,
        signature,
    }
}

#[test]
fn a_fresh_ledger_holds_exactly_the_genesis_block() {
    let chain = Blockchain::new(vec!["someone".to_string()]);
    assert_eq!(chain.blocks.len(), 1);
    let genesis = &chain.blocks[0];
    assert_eq!(genesis.header.id, 0);
    assert_eq!(genesis.header.previous_hash, zero_digest_string());
    assert_eq!(genesis.header.transactions_hash, zero_digest_string());
    assert_eq!(genesis.header.validator_pubkey, "system");
    assert!(genesis.transactions.is_empty());
    assert!(genesis.signature.bytes.iter().all(|b| *b == 0));
}

#[test]
fn a_funded_transfer_commits_and_moves_exactly_the_amount() {
    // Genesis ledger with validator set {V}; A funded to 1000 via a
    // pre-seeded state; A transfers 100 to B at nonce 0; the proposer's
    // block commits; then the identical transaction in block 2 is
    // rejected with NonceMismatch and the state is unchanged.
    let validator = Wallet::new();
    let alice = Wallet::new();
    let bob = Wallet::new();
    let alice_id = alice.public_key_hex();
    let bob_id = bob.public_key_hex();

    let mut chain = Blockchain::new(vec![validator.public_key_hex()]);
    chain.state.set_account(
        &alice_id,
        AccountState {
            nonce: 0,
            balance: 1000,
        },
    );

    let tx = Transaction::new(&alice, bob_id.clone(), 100, 0);
    let block1 = build_block(&chain, &validator, vec![tx.clone()], 1_700_000_001);
    assert_eq!(chain.validate_and_add_block(block1), Ok(()));
    assert_eq!(chain.blocks.len(), 2);
    assert_eq!(chain.state.get_account(&alice_id).balance, 900);
    assert_eq!(chain.state.get_account(&alice_id).nonce, 1);
    assert_eq!(chain.state.get_account(&bob_id).balance, 100);
    assert_eq!(chain.state.get_account(&bob_id).nonce, 0);

    let replay = build_block(&chain, &validator, vec![tx], 1_700_000_002);
    assert_eq!(
        chain.validate_and_add_block(replay),
        Err(ValidationError::NonceMismatch)
    );
    assert_eq!(chain.blocks.len(), 2);
    assert_eq!(chain.state.get_account(&alice_id).balance, 900);
    assert_eq!(chain.state.get_account(&alice_id).nonce, 1);
    assert_eq!(chain.state.get_account(&bob_id).balance, 100);
}

#[test]
fn one_block_may_carry_consecutive_nonces_from_one_sender() {
    let validator = Wallet::new();
    let alice = Wallet::new();
    let alice_id = alice.public_key_hex();
    let mut chain = Blockchain::new(vec![validator.public_key_hex()]);
    chain.state.set_account(
        &alice_id,
        AccountState {
            nonce: 0,
            balance: 300,
        },
    );
    let tx0 = Transaction::new(&alice, "recipient-b".to_string(), 100, 0);
    let tx1 = Transaction::new(&alice, "recipient-b".to_string(), 100, 1);
    let block = build_block(&chain, &validator, vec![tx0, tx1], 1_700_000_001);
    assert_eq!(chain.validate_and_add_block(block), Ok(()));
    assert_eq!(chain.state.get_account(&alice_id).balance, 100);
    assert_eq!(chain.state.get_account(&alice_id).nonce, 2);
    assert_eq!(
        chain
            .state
            .get_account(&"recipient-b".to_string())
            .balance,
        200
    );
}

#[test]
fn a_committed_block_conserves_the_sum_of_balances() {
    let validator = Wallet::new();
    let alice = Wallet::new();
    let alice_id = alice.public_key_hex();
    let bob_id = "bob-account".to_string();
    let carol_id = "carol-account".to_string();
    let mut chain = Blockchain::new(vec![validator.public_key_hex()]);
    chain.state.set_account(
        &alice_id,
        AccountState {
            nonce: 0,
            balance: 500,
        },
    );
    chain.state.set_account(
        &carol_id,
        AccountState {
            nonce: 7,
            balance: 250,
        },
    );
    let before = chain.state.get_account(&alice_id).balance
        + chain.state.get_account(&bob_id).balance
        + chain.state.get_account(&carol_id).balance;
    let tx = Transaction::new(&alice, bob_id.clone(), 123, 0);
    let block = build_block(&chain, &validator, vec![tx], 1_700_000_001);
    assert_eq!(chain.validate_and_add_block(block), Ok(()));
    let after = chain.state.get_account(&alice_id).balance
        + chain.state.get_account(&bob_id).balance
        + chain.state.get_account(&carol_id).balance;
    assert_eq!(before, after);
}

#[test]
fn a_block_with_the_wrong_height_is_rejected() {
    let validator = Wallet::new();
    let alice = Wallet::new();
    let mut chain = Blockchain::new(vec![validator.public_key_hex()]);
    chain.state.set_account(
        &alice.public_key_hex(),
        AccountState {
            nonce: 0,
            balance: 10,
        },
    );
    let tx = Transaction::new(&alice, "bob".to_string(), 1, 0);
    let mut block = build_block(&chain, &validator, vec![tx], 1_700_000_001);
    block.header.id = 5;
    assert_eq!(
        chain.validate_and_add_block(block),
        Err(ValidationError::InvalidHeight)
    );
    assert_eq!(chain.blocks.len(), 1);
}

#[test]
fn a_block_not_linked_to_the_tip_is_rejected() {
    // Chain linkage: previous_hash must equal the digest of the tip
    // header, even when every other field is valid.
    let validator = Wallet::new();
    let alice = Wallet::new();
    let mut chain = Blockchain::new(vec![validator.public_key_hex()]);
    chain.state.set_account(
        &alice.public_key_hex(),
        AccountState {
            nonce: 0,
            balance: 10,
        },
    );
    let tx = Transaction::new(&alice, "bob".to_string(), 1, 0);
    let tip = chain.tip_header();
    let header = BlockHeader {
        id: tip.id + 1,
        timestamp: 1_700_000_001,
        previous_hash: zero_digest_string(),
        validator_pubkey: validator.public_key_hex(),
        transactions_hash: Block::hash_transactions(std::slice::from_ref(&tx)),
    };
    let header_hash = header.digest_string();
    let signature = validator.sign(header_hash.as_bytes());
    let block = Block {
        header,
        transactions: vec![tx],
        signature,
    };
    assert_eq!(
        chain.validate_and_add_block(block),
        Err(ValidationError::PreviousHashMismatch)
    );
    assert_eq!(chain.blocks.len(), 1);
}

#[test]
fn a_block_from_an_unlisted_validator_is_rejected() {
    let validator = Wallet::new();
    let intruder = Wallet::new();
    let chain_validators = vec![validator.public_key_hex()];
    let mut chain = Blockchain::new(chain_validators);
    let alice = Wallet::new();
    chain.state.set_account(
        &alice.public_key_hex(),
        AccountState {
            nonce: 0,
            balance: 10,
        },
    );
    let tx = Transaction::new(&alice, "bob".to_string(), 1, 0);
    let block = build_block(&chain, &intruder, vec![tx], 1_700_000_001);
    assert_eq!(
        chain.validate_and_add_block(block),
        Err(ValidationError::UnauthorizedValidator)
    );
}

#[test]
fn a_block_with_a_bad_validator_signature_is_rejected() {
    let validator = Wallet::new();
    let alice = Wallet::new();
    let mut chain = Blockchain::new(vec![validator.public_key_hex()]);
    chain.state.set_account(
        &alice.public_key_hex(),
        AccountState {
            nonce: 0,
            balance: 10,
        },
    );
    let tx = Transaction::new(&alice, "bob".to_string(), 1, 0);
    let mut block = build_block(&chain, &validator, vec![tx], 1_700_000_001);
    block.signature = kosher_chain::wallet::Signature::zeroed();
    assert_eq!(
        chain.validate_and_add_block(block),
        Err(ValidationError::InvalidBlockSignature)
    );
}

#[test]
fn a_header_bound_to_a_different_transaction_list_is_rejected() {
    let validator = Wallet::new();
    let alice = Wallet::new();
    let mut chain = Blockchain::new(vec![validator.public_key_hex()]);
    chain.state.set_account(
        &alice.public_key_hex(),
        AccountState {
            nonce: 0,
            balance: 10,
        },
    );
    let tx = Transaction::new(&alice, "bob".to_string(), 1, 0);
    let tip = chain.tip_header();
    // The header is signed honestly, but binds the empty transaction
    // list while the block carries one transaction.
    let header = BlockHeader {
        id: tip.id + 1,
        timestamp: 1_700_000_001,
        previous_hash: tip.digest_string(),
        validator_pubkey: validator.public_key_hex(),
        transactions_hash: Block::hash_transactions(&[]),
    };
    let header_hash = header.digest_string();
    let signature = validator.sign(header_hash.as_bytes());
    let block = Block {
        header,
        transactions: vec![tx],
        signature,
    };
    assert_eq!(
        chain.validate_and_add_block(block),
        Err(ValidationError::TransactionsHashMismatch)
    );
}

#[test]
fn a_transaction_with_a_tampered_signature_is_rejected() {
    let validator = Wallet::new();
    let alice = Wallet::new();
    let mut chain = Blockchain::new(vec![validator.public_key_hex()]);
    chain.state.set_account(
        &alice.public_key_hex(),
        AccountState {
            nonce: 0,
            balance: 10,
        },
    );
    let mut tx = Transaction::new(&alice, "bob".to_string(), 1, 0);
    tx.signature.bytes[5] ^= 0x01;
    let block = build_block(&chain, &validator, vec![tx], 1_700_000_001);
    assert_eq!(
        chain.validate_and_add_block(block),
        Err(ValidationError::InvalidTransactionSignature)
    );
}

#[test]
fn an_uncovered_transfer_is_rejected_with_insufficient_funds() {
    let validator = Wallet::new();
    let alice = Wallet::new();
    let alice_id = alice.public_key_hex();
    let mut chain = Blockchain::new(vec![validator.public_key_hex()]);
    chain.state.set_account(
        &alice_id,
        AccountState {
            nonce: 0,
            balance: 50,
        },
    );
    let tx = Transaction::new(&alice, "bob".to_string(), 100, 0);
    let block = build_block(&chain, &validator, vec![tx], 1_700_000_001);
    assert_eq!(
        chain.validate_and_add_block(block),
        Err(ValidationError::InsufficientFunds)
    );
    assert_eq!(chain.state.get_account(&alice_id).balance, 50);
}

#[test]
fn a_future_nonce_is_rejected_not_deferred() {
    let validator = Wallet::new();
    let alice = Wallet::new();
    let mut chain = Blockchain::new(vec![validator.public_key_hex()]);
    chain.state.set_account(
        &alice.public_key_hex(),
        AccountState {
            nonce: 0,
            balance: 100,
        },
    );
    let tx = Transaction::new(&alice, "bob".to_string(), 1, 5);
    let block = build_block(&chain, &validator, vec![tx], 1_700_000_001);
    assert_eq!(
        chain.validate_and_add_block(block),
        Err(ValidationError::NonceMismatch)
    );
}

#[test]
fn a_transfer_that_would_overflow_the_recipient_is_rejected() {
    let validator = Wallet::new();
    let alice = Wallet::new();
    let bob_id = "rich-bob".to_string();
    let mut chain = Blockchain::new(vec![validator.public_key_hex()]);
    chain.state.set_account(
        &alice.public_key_hex(),
        AccountState {
            nonce: 0,
            balance: 10,
        },
    );
    chain.state.set_account(
        &bob_id,
        AccountState {
            nonce: 0,
            balance: u64::MAX,
        },
    );
    let tx = Transaction::new(&alice, bob_id.clone(), 1, 0);
    let block = build_block(&chain, &validator, vec![tx], 1_700_000_001);
    assert_eq!(
        chain.validate_and_add_block(block),
        Err(ValidationError::ArithmeticOverflow)
    );
    assert_eq!(chain.state.get_account(&bob_id).balance, u64::MAX);
}

#[test]
fn a_failing_transaction_rejects_the_whole_block_atomically() {
    let validator = Wallet::new();
    let alice = Wallet::new();
    let alice_id = alice.public_key_hex();
    let mut chain = Blockchain::new(vec![validator.public_key_hex()]);
    chain.state.set_account(
        &alice_id,
        AccountState {
            nonce: 0,
            balance: 150,
        },
    );
    // The first transaction alone would be fine; the second runs out of
    // funds, so neither may leave a trace.
    let tx0 = Transaction::new(&alice, "bob".to_string(), 100, 0);
    let tx1 = Transaction::new(&alice, "bob".to_string(), 100, 1);
    let block = build_block(&chain, &validator, vec![tx0, tx1], 1_700_000_001);
    assert_eq!(
        chain.validate_and_add_block(block),
        Err(ValidationError::InsufficientFunds)
    );
    assert_eq!(chain.blocks.len(), 1);
    assert_eq!(chain.state.get_account(&alice_id).balance, 150);
    assert_eq!(chain.state.get_account(&alice_id).nonce, 0);
    assert_eq!(chain.state.get_account(&"bob".to_string()).balance, 0);
}

#[test]
fn transaction_validity_is_checked_against_the_committed_state() {
    let alice = Wallet::new();
    let alice_id = alice.public_key_hex();
    let mut chain = Blockchain::new(vec!["someone".to_string()]);
    chain.state.set_account(
        &alice_id,
        AccountState {
            nonce: 3,
            balance: 10,
        },
    );
    let good = Transaction::new(&alice, "bob".to_string(), 5, 3);
    assert_eq!(chain.is_transaction_valid(&good), Ok(()));
    let stale = Transaction::new(&alice, "bob".to_string(), 5, 2);
    assert_eq!(
        chain.is_transaction_valid(&stale),
        Err(ValidationError::NonceMismatch)
    );
    let uncovered = Transaction::new(&alice, "bob".to_string(), 50, 3);
    assert_eq!(
        chain.is_transaction_valid(&uncovered),
        Err(ValidationError::InsufficientFunds)
    );
}
