use kosher_chain::accounts::AccountState;
use kosher_chain::block::{Block, BlockHeader, Transaction};
use kosher_chain::blockchain::Blockchain;
use kosher_chain::mempool::Mempool;
use kosher_chain::p2p::{
    chain_topic, handle_gossip_message, handle_malformed_message, topic_for, transaction_topic,
    ChainMessage, PeerManager, BAN_THRESHOLD,
};
use kosher_chain::wallet::Wallet;

fn build_block(chain: &Blockchain, validator: &Wallet, txs: Vec<Transaction>) -> Block {
    let tip = chain.tip_header();
    let header = BlockHeader {
        id: tip.id + 1,
        timestamp: 1_700_000_001,
        previous_hash: tip.digest_string(),
        validator_pubkey: validator.public_key_hex(),
        transactions_hash: Block::hash_transactions(&txs),
    };
    let header_hash = header.digest_string();
    let signature = validator.sign(header_hash.as_bytes());
    Block {
        header,
        transactions: txs,
        signature,
    }
}

#[test]
fn a_peer_is_banned_exactly_when_its_score_first_drops_below_the_threshold() {
    // Three consecutive invalid-block penalties of 50 starting at 0:
    // 0 -> -50 -> -100 -> -150; only the last crosses below -100.
    assert_eq!(BAN_THRESHOLD, -100);
    let mut peers = PeerManager::new();
    let peer = "peer-one".to_string();
    peers.add_peer(&peer);
    assert_eq!(peers.score_of(&peer), Some(0));
    assert!(!peers.penalize_peer(&peer, 50));
    assert_eq!(peers.score_of(&peer), Some(-50));
    assert!(!peers.penalize_peer(&peer, 50));
    assert_eq!(peers.score_of(&peer), Some(-100));
    assert!(peers.penalize_peer(&peer, 50));
    assert_eq!(peers.score_of(&peer), Some(-150));
}

#[test]
fn rewards_accumulate_and_scoring_an_unknown_peer_is_a_no_op() {
    let mut peers = PeerManager::new();
    let known = "known".to_string();
    let unknown = "unknown".to_string();
    peers.add_peer(&known);
    peers.reward_peer(&known, 10);
    peers.reward_peer(&known, 1);
    assert_eq!(peers.score_of(&known), Some(11));
    peers.reward_peer(&unknown, 10);
    assert!(!peers.penalize_peer(&unknown, 50));
    assert_eq!(peers.score_of(&unknown), None);
}

#[test]
fn reconnecting_a_known_peer_keeps_its_score() {
    let mut peers = PeerManager::new();
    let peer = "peer".to_string();
    peers.add_peer(&peer);
    peers.penalize_peer(&peer, 5);
    peers.add_peer(&peer);
    assert_eq!(peers.score_of(&peer), Some(-5));
    peers.remove_peer(&peer);
    assert_eq!(peers.score_of(&peer), None);
    peers.add_peer(&peer);
    assert_eq!(peers.score_of(&peer), Some(0));
}

#[test]
fn topics_are_selected_by_message_kind() {
    let wallet = Wallet::new();
    let tx = Transaction::new(&wallet, "bob".to_string(), 1, 0);
    assert_eq!(chain_topic(), "kosher-chain-blocks");
    assert_eq!(transaction_topic(), "kosher-chain-transactions");
    assert_eq!(
        topic_for(&ChainMessage::Transaction(tx)),
        "kosher-chain-transactions"
    );
    let chain = Blockchain::new(vec![wallet.public_key_hex()]);
    let block = build_block(&chain, &wallet, vec![]);
    assert_eq!(topic_for(&ChainMessage::Block(block)), "kosher-chain-blocks");
}

#[test]
fn a_valid_relayed_block_rewards_the_peer() {
    let validator = Wallet::new();
    let alice = Wallet::new();
    let mut chain = Blockchain::new(vec![validator.public_key_hex()]);
    chain.state.set_account(
        &alice.public_key_hex(),
        AccountState {
            nonce: 0,
            balance: 100,
        },
    );
    let tx = Transaction::new(&alice, "bob".to_string(), 10, 0);
    let block = build_block(&chain, &validator, vec![tx]);
    let mut pool = Mempool::new();
    let mut peers = PeerManager::new();
    let peer = "relay".to_string();
    peers.add_peer(&peer);
    let ban = handle_gossip_message(
        ChainMessage::Block(block),
        &mut chain,
        &mut pool,
        &mut peers,
        &peer,
    );
    assert!(!ban);
    assert_eq!(chain.blocks.len(), 2);
    assert_eq!(peers.score_of(&peer), Some(10));
}

#[test]
fn an_invalid_relayed_block_penalizes_the_peer() {
    let validator = Wallet::new();
    let intruder = Wallet::new();
    let mut chain = Blockchain::new(vec![validator.public_key_hex()]);
    let block = build_block(&chain, &intruder, vec![]);
    let mut pool = Mempool::new();
    let mut peers = PeerManager::new();
    let peer = "relay".to_string();
    peers.add_peer(&peer);
    let ban = handle_gossip_message(
        ChainMessage::Block(block),
        &mut chain,
        &mut pool,
        &mut peers,
        &peer,
    );
    assert!(!ban);
    assert_eq!(chain.blocks.len(), 1);
    assert_eq!(peers.score_of(&peer), Some(-50));
}

#[test]
fn relayed_transactions_score_the_peer_by_the_pool_outcome() {
    let wallet = Wallet::new();
    let tx = Transaction::new(&wallet, "bob".to_string(), 1, 0);
    let mut chain = Blockchain::new(vec!["someone".to_string()]);
    let mut pool = Mempool::new();
    let mut peers = PeerManager::new();
    let peer = "relay".to_string();
    peers.add_peer(&peer);
    let ban = handle_gossip_message(
        ChainMessage::Transaction(tx.clone()),
        &mut chain,
        &mut pool,
        &mut peers,
        &peer,
    );
    assert!(!ban);
    assert_eq!(pool.len(), 1);
    assert_eq!(peers.score_of(&peer), Some(1));
    // The duplicate is refused and costs the peer five points.
    let ban = handle_gossip_message(
        ChainMessage::Transaction(tx),
        &mut chain,
        &mut pool,
        &mut peers,
        &peer,
    );
    assert!(!ban);
    assert_eq!(pool.len(), 1);
    assert_eq!(peers.score_of(&peer), Some(-4));
}

#[test]
fn a_malformed_message_penalizes_without_interpretation() {
    let mut peers = PeerManager::new();
    let peer = "garbler".to_string();
    peers.add_peer(&peer);
    assert!(!handle_malformed_message(&mut peers, &peer));
    assert_eq!(peers.score_of(&peer), Some(-25));
    for _ in 0..3 {
        handle_malformed_message(&mut peers, &peer);
    }
    assert_eq!(peers.score_of(&peer), Some(-100));
    assert!(handle_malformed_message(&mut peers, &peer));
    assert_eq!(peers.score_of(&peer), Some(-125));
}
