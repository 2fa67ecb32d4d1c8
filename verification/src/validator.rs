//! The proposer: one tick of the validator service.
//!
//! On each tick the service drains a bounded batch from the pool and, if
//! anything was drained, builds the next block — height one above the
//! tip, the tip header's digest as the previous hash, the batch's digest
//! as the transactions hash — and signs its header digest. No empty
//! blocks are produced. The proposer never commits its own block
//! directly: the block is handed to dissemination and flows back through
//! the same validation path as any remotely received block.

use vstd::prelude::*;
use vstd::utf8::encode_utf8;
use crate::block::{header_digest, txs_digest, Block, BlockHeader, Transaction};
use crate::blockchain::Blockchain;
use crate::mempool::{remove_by_hash, Mempool};
use crate::wallet::{ed25519_verifies, Wallet};

verus! {

/// Seconds between two proposal ticks.
pub const BLOCK_PROPOSAL_INTERVAL_SECONDS: u64 = 15;

/// The most transactions one proposed block carries.
pub const BLOCK_TRANSACTION_LIMIT: usize = 100;

/// One proposal tick: drains up to `BLOCK_TRANSACTION_LIMIT` transactions
/// from the pool and, unless the drain came back empty, builds and signs
/// the next block over them with the given timestamp. The drained
/// transactions leave the pool whether or not the block is later
/// committed or disseminated.
pub fn propose_block(chain: &Blockchain, mempool: &mut Mempool, wallet: &Wallet, timestamp: i64)
    -> (r: Option<Block>)
    requires
        chain.wf(),
        old(mempool).wf(),
        chain.tip().id < u64::MAX,
    ensures
        final(mempool).wf(),
        final(mempool).capacity() == old(mempool).capacity(),
        ({
            let drained = old(mempool).txs().take(
                if BLOCK_TRANSACTION_LIMIT <= old(mempool).txs().len() {
                    BLOCK_TRANSACTION_LIMIT as int
                } else {
                    old(mempool).txs().len() as int
                },
            );
            if old(mempool).txs().len() == 0 {
                &&& r is None
                &&& final(mempool).txs() == old(mempool).txs()
            } else {
                &&& r is Some
                &&& final(mempool).txs() == remove_by_hash(old(mempool).txs(), drained)
                &&& r->Some_0@.transactions == drained
                &&& r->Some_0@.header.id == chain.tip().id + 1
                &&& r->Some_0@.header.timestamp == timestamp
                &&& r->Some_0@.header.previous_hash == header_digest(chain.tip())
                &&& r->Some_0@.header.validator_pubkey == wallet.pubkey()
                &&& r->Some_0@.header.transactions_hash == txs_digest(drained)
                &&& r->Some_0@.signature.len() == 64
                &&& ed25519_verifies(
                    wallet.pubkey(),
                    encode_utf8(header_digest(r->Some_0@.header)),
                    r->Some_0@.signature,
                )
            }
        }),
{
    let transactions = mempool.get_transactions(BLOCK_TRANSACTION_LIMIT);
    proof {
        assert(transactions@.len() == transactions.deep_view().len());
    }
    if transactions.len() == 0 {
        return None;
    }
    mempool.clear(transactions.as_slice());
    let tip = chain.tip_header();
    Some(build_signed_block(&tip, transactions, wallet, timestamp))
}

/// Builds and signs the successor of `tip`: the header binds the given
/// transaction list and carries the tip header's digest as its previous
/// hash, and the signature is the wallet's, over the new header's
/// digest.
pub fn build_signed_block(
    tip: &BlockHeader,
    transactions: Vec<Transaction>,
    wallet: &Wallet,
    timestamp: i64,
) -> (b: Block)
    requires
        tip@.id < u64::MAX,
    ensures
        b@.header.id == tip@.id + 1,
        b@.header.timestamp == timestamp,
        b@.header.previous_hash == header_digest(tip@),
        b@.header.validator_pubkey == wallet.pubkey(),
        b@.header.transactions_hash == txs_digest(transactions.deep_view()),
        b@.transactions == transactions.deep_view(),
        b@.signature.len() == 64,
        ed25519_verifies(
            wallet.pubkey(),
            encode_utf8(header_digest(b@.header)),
            b@.signature,
        ),
{
    let previous_hash = tip.digest_string();
    let transactions_hash = Block::hash_transactions(transactions.as_slice());
    let header = BlockHeader {
        id: tip.id + 1,
        timestamp,
        previous_hash,
        validator_pubkey: wallet.public_key_hex(),
        transactions_hash,
    };
    let header_hash = header.digest_string();
    let signature = wallet.sign(header_hash.as_str().as_bytes());
    Block { header, transactions, signature }
}

} // verus!
