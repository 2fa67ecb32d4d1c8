//! The ledger: chain history, account state, and the single state
//! transition `validate_and_add_block`.
//!
//! The ledger owns an append-only block list (the genesis block is
//! inserted at construction and never removed), a static validator set,
//! and the account table derived from the committed blocks. A block is
//! committed only after every check passes — height, chain link,
//! authority, block signature, transaction-list integrity, and every
//! transaction in order against a working copy of the state — and a block
//! that fails any check changes nothing (atomicity across the whole
//! block). Validating against the mutating working copy, not the committed
//! snapshot, is deliberate: it lets one block carry several transactions
//! from the same sender with consecutive nonces.

use vstd::prelude::*;
use vstd::utf8::encode_utf8;
use crate::accounts::{account_of, AccountState, Accounts};
use crate::block::{header_digest, txs_digest, Block, BlockHeader, BlockView, HeaderView,
    Transaction, TxView};
use crate::clock::current_timestamp;
use crate::codec::{zero_digest, zero_digest_string};
use crate::wallet::{ed25519_verifies, Signature, Wallet};

verus! {

/// Why a block was rejected. Each failure rejects exactly one block and
/// is never fatal.
#[derive(Clone, Copy, Debug, PartialEq, Eq, Structural)]
pub enum ValidationError {
    /// The block's height is not one more than the tip's.
    InvalidHeight,
    /// The block's previous-hash is not the digest of the tip header.
    PreviousHashMismatch,
    /// The proposer is not in the validator set.
    UnauthorizedValidator,
    /// The validator's signature over the header digest does not verify.
    InvalidBlockSignature,
    /// The header's transactions-hash does not match the transaction list.
    TransactionsHashMismatch,
    /// A transaction's signature does not verify against its sender.
    InvalidTransactionSignature,
    /// A transaction's nonce is not the sender's current nonce.
    NonceMismatch,
    /// A sender's balance does not cover the transferred amount.
    InsufficientFunds,
    /// Applying the transaction would overflow a counter or a balance.
    ArithmeticOverflow,
}

/// The first reason `tx` is invalid against the working state `m`, or
/// `None` if it applies: the signature must verify, the nonce must equal
/// the sender's current nonce exactly (replay and reordering protection),
/// the balance must cover the amount, and applying it must stay within
/// machine bounds.
pub open spec fn spec_tx_error(m: Map<Seq<char>, AccountState>, tx: TxView) -> Option<
    ValidationError,
> {
    let sender = account_of(m, tx.sender);
    if !(tx.signature.len() == 64 && ed25519_verifies(tx.sender, encode_utf8(tx.hash), tx.signature)) {
        Some(ValidationError::InvalidTransactionSignature)
    } else if sender.nonce != tx.nonce {
        Some(ValidationError::NonceMismatch)
    } else if sender.balance < tx.amount {
        Some(ValidationError::InsufficientFunds)
    } else if tx.nonce == u64::MAX {
        Some(ValidationError::ArithmeticOverflow)
    } else if tx.recipient != tx.sender && account_of(m, tx.recipient).balance + tx.amount
        > u64::MAX {
        Some(ValidationError::ArithmeticOverflow)
    } else {
        None
    }
}

/// The state after applying a valid `tx` to `m`: the sender's balance
/// drops by the amount and its nonce advances, then the recipient's
/// balance grows by the amount (the recipient entry is created if
/// absent; a self-transfer leaves the balance unchanged).
pub open spec fn spec_apply_tx(m: Map<Seq<char>, AccountState>, tx: TxView) -> Map<
    Seq<char>,
    AccountState,
> {
    let sender = account_of(m, tx.sender);
    let m1 = m.insert(
        tx.sender,
        AccountState {
            nonce: (sender.nonce + 1) as u64,
            balance: (sender.balance - tx.amount) as u64,
        },
    );
    let recipient = account_of(m1, tx.recipient);
    m1.insert(
        tx.recipient,
        AccountState {
            nonce: recipient.nonce,
            balance: (recipient.balance + tx.amount) as u64,
        },
    )
}

/// Applies `txs` to `m` in order, or the first transaction's error.
pub open spec fn spec_apply_txs(m: Map<Seq<char>, AccountState>, txs: Seq<TxView>) -> Result<
    Map<Seq<char>, AccountState>,
    ValidationError,
>
    decreases txs.len(),
{
    if txs.len() == 0 {
        Ok(m)
    } else {
        match spec_tx_error(m, txs.first()) {
            Some(e) => Err(e),
            None => spec_apply_txs(spec_apply_tx(m, txs.first()), txs.drop_first()),
        }
    }
}

/// Applies the transactions of every block in order, or the first
/// error.
pub open spec fn spec_apply_blocks(m: Map<Seq<char>, AccountState>, blocks: Seq<BlockView>)
    -> Result<Map<Seq<char>, AccountState>, ValidationError>
    decreases blocks.len(),
{
    if blocks.len() == 0 {
        Ok(m)
    } else {
        match spec_apply_txs(m, blocks.first().transactions) {
            Err(e) => Err(e),
            Ok(m2) => spec_apply_blocks(m2, blocks.drop_first()),
        }
    }
}

/// The ledger stores no state that did not result from committed
/// blocks: whenever the current state is the fold of the committed
/// blocks over some starting state, the state after one more successful
/// commit is the fold of the extended block list over the same starting
/// state — in block order and, within each block, in transaction order.
pub proof fn lemma_state_is_block_fold(
    m0: Map<Seq<char>, AccountState>,
    blocks: Seq<BlockView>,
    state: Map<Seq<char>, AccountState>,
    b: BlockView,
)
    requires
        spec_apply_blocks(m0, blocks) == Ok::<_, ValidationError>(state),
        spec_apply_txs(state, b.transactions) is Ok,
    ensures
        spec_apply_blocks(m0, blocks.push(b)) == spec_apply_txs(state, b.transactions),
    decreases blocks.len(),
{
    if blocks.len() == 0 {
        assert(m0 == state);
        assert(blocks.push(b).first() == b);
        assert(blocks.push(b).drop_first() =~= Seq::<BlockView>::empty());
        let m2 = spec_apply_txs(state, b.transactions)->Ok_0;
        assert(spec_apply_blocks(m2, Seq::<BlockView>::empty()) == Ok::<_, ValidationError>(m2));
    } else {
        let m1 = spec_apply_txs(m0, blocks.first().transactions)->Ok_0;
        assert(blocks.push(b).first() == blocks.first());
        assert(blocks.push(b).drop_first() =~= blocks.drop_first().push(b));
        lemma_state_is_block_fold(m1, blocks.drop_first(), state, b);
    }
}

/// Whether `v` is one of the authorized validators.
pub open spec fn spec_is_validator(vs: Seq<Seq<char>>, v: Seq<char>) -> bool {
    exists|i: int| 0 <= i < vs.len() && vs[i] == v
}

/// The ledger.
pub struct Blockchain {
    pub blocks: Vec<Block>,
    pub validator_set: Vec<String>,
    pub state: Accounts,
}

impl Blockchain {
    /// The chain always holds at least the genesis block, and the account
    /// table denotes its map uniquely.
    pub open spec fn wf(self) -> bool {
        &&& self.blocks@.len() >= 1
        &&& self.state.wf()
    }

    /// The header of the current tip: the last committed block.
    pub open spec fn tip(self) -> HeaderView {
        self.blocks.deep_view().last().header
    }

    /// The first reason the ledger rejects `b`, or `None` if `b` commits:
    /// the checks run in this order and stop at the first failure.
    pub open spec fn spec_commit_error(self, b: BlockView) -> Option<ValidationError> {
        if b.header.id != self.tip().id + 1 {
            Some(ValidationError::InvalidHeight)
        } else if b.header.previous_hash != header_digest(self.tip()) {
            Some(ValidationError::PreviousHashMismatch)
        } else if !spec_is_validator(self.validator_set.deep_view(), b.header.validator_pubkey) {
            Some(ValidationError::UnauthorizedValidator)
        } else if !(b.signature.len() == 64 && ed25519_verifies(
            b.header.validator_pubkey,
            encode_utf8(header_digest(b.header)),
            b.signature,
        )) {
            Some(ValidationError::InvalidBlockSignature)
        } else if b.header.transactions_hash != txs_digest(b.transactions) {
            Some(ValidationError::TransactionsHashMismatch)
        } else {
            match spec_apply_txs(self.state.map_view(), b.transactions) {
                Ok(_) => None,
                Err(e) => Some(e),
            }
        }
    }

    /// A fresh ledger: the genesis block (height 0, all-zero previous
    /// hash and transactions hash, the `"system"` identity, no
    /// transactions, a dummy all-zero signature exempt from verification)
    /// over an empty account table.
    pub fn new(validators: Vec<String>) -> (r: Blockchain)
        ensures
            r.wf(),
            r.blocks@.len() == 1,
            r.blocks.deep_view()[0].header.id == 0,
            r.blocks.deep_view()[0].header.previous_hash == zero_digest(),
            r.blocks.deep_view()[0].header.validator_pubkey == "system"@,
            r.blocks.deep_view()[0].header.transactions_hash == zero_digest(),
            r.blocks.deep_view()[0].transactions.len() == 0,
            r.blocks.deep_view()[0].signature == Seq::new(64, |i: int| 0u8),
            r.validator_set == validators,
            r.state.map_view() == Map::<Seq<char>, AccountState>::empty(),
            r.state.total() == 0,
    {
        let header = BlockHeader {
            id: 0,
            timestamp: current_timestamp(),
            previous_hash: zero_digest_string(),
            validator_pubkey: system_identity(),
            transactions_hash: zero_digest_string(),
        };
        let genesis = Block { header, transactions: Vec::new(), signature: Signature::zeroed() };
        let mut blocks: Vec<Block> = Vec::new();
        blocks.push(genesis);
        Blockchain { blocks, validator_set: validators, state: Accounts::new() }
    }

    /// Reassembles a ledger from its parts, as persistence hands them
    /// back.
    pub fn from_parts(blocks: Vec<Block>, validator_set: Vec<String>, state: Accounts) -> (r:
        Blockchain)
        requires
            blocks@.len() >= 1,
            state.wf(),
        ensures
            r.wf(),
            r.blocks == blocks,
            r.validator_set == validator_set,
            r.state == state,
    {
        Blockchain { blocks, validator_set, state }
    }

    /// Whether `v` is one of the authorized validators.
    pub fn is_validator(&self, v: &String) -> (r: bool)
        ensures
            r == spec_is_validator(self.validator_set.deep_view(), v@),
    {
        let n = self.validator_set.len();
        let mut i: usize = 0;
        while i < n
            invariant
                n == self.validator_set@.len(),
                i <= n,
                forall|j: int| 0 <= j < i ==> self.validator_set.deep_view()[j] != v@,
            decreases n - i,
        {
            if self.validator_set[i] == *v {
                proof {
                    assert(self.validator_set.deep_view()[i as int] == v@);
                }
                return true;
            }
            i = i + 1;
        }
        false
    }

    /// A copy of the current tip's header.
    pub fn tip_header(&self) -> (h: BlockHeader)
        requires
            self.wf(),
        ensures
            h@ == self.tip(),
    {
        let n = self.blocks.len();
        let h = self.blocks[n - 1].header.clone();
        proof {
            assert(self.blocks.deep_view().last() == self.blocks@[n - 1]@);
        }
        h
    }

    /// Validates `tx` against the committed state without applying it.
    pub fn is_transaction_valid(&self, tx: &Transaction) -> (r: Result<(), ValidationError>)
        requires
            self.wf(),
        ensures
            match r {
                Ok(()) => spec_tx_error(self.state.map_view(), tx@) is None,
                Err(e) => spec_tx_error(self.state.map_view(), tx@) == Some(e),
            },
    {
        if !Wallet::verify_signature(
            tx.sender.as_str(),
            tx.hash.as_str().as_bytes(),
            &tx.signature,
        ) {
            return Err(ValidationError::InvalidTransactionSignature);
        }
        let sender = self.state.get_account(&tx.sender);
        if sender.nonce != tx.nonce {
            return Err(ValidationError::NonceMismatch);
        }
        if sender.balance < tx.amount {
            return Err(ValidationError::InsufficientFunds);
        }
        if tx.nonce == u64::MAX {
            return Err(ValidationError::ArithmeticOverflow);
        }
        if tx.recipient != tx.sender {
            let recipient = self.state.get_account(&tx.recipient);
            if recipient.balance > u64::MAX - tx.amount {
                return Err(ValidationError::ArithmeticOverflow);
            }
        }
        Ok(())
    }

    /// The single state transition: validates `block` and, if every check
    /// passes, appends it and installs the worked state. On failure the
    /// returned error is exactly the first failed check and the ledger is
    /// unchanged — no partial state is ever retained. A committed block
    /// never changes the sum of all balances: transfers move value, never
    /// create or destroy it.
    pub fn validate_and_add_block(&mut self, block: Block) -> (r: Result<(), ValidationError>)
        requires
            old(self).wf(),
        ensures
            final(self).wf(),
            final(self).validator_set == old(self).validator_set,
            match r {
                Ok(()) => {
                    &&& old(self).spec_commit_error(block@) is None
                    &&& final(self).blocks.deep_view() == old(self).blocks.deep_view().push(
                        block@,
                    )
                    &&& Ok::<_, ValidationError>(final(self).state.map_view()) == spec_apply_txs(
                        old(self).state.map_view(),
                        block@.transactions,
                    )
                    &&& final(self).state.total() == old(self).state.total()
                },
                Err(e) => {
                    &&& old(self).spec_commit_error(block@) == Some(e)
                    &&& final(self).blocks.deep_view() == old(self).blocks.deep_view()
                    &&& final(self).state.map_view() == old(self).state.map_view()
                    &&& final(self).state.total() == old(self).state.total()
                },
            },
    {
        let n = self.blocks.len();
        let tip_id = self.blocks[n - 1].header.id;
        proof {
            assert(self.blocks.deep_view().last() == self.blocks@[n - 1]@);
        }
        if !(tip_id < u64::MAX && block.header.id == tip_id + 1) {
            return Err(ValidationError::InvalidHeight);
        }
        let tip_hash = self.blocks[n - 1].header.digest_string();
        if !(block.header.previous_hash == tip_hash) {
            return Err(ValidationError::PreviousHashMismatch);
        }
        if !self.is_validator(&block.header.validator_pubkey) {
            return Err(ValidationError::UnauthorizedValidator);
        }
        let header_hash = block.calculate_header_hash();
        if !Wallet::verify_signature(
            block.header.validator_pubkey.as_str(),
            header_hash.as_str().as_bytes(),
            &block.signature,
        ) {
            return Err(ValidationError::InvalidBlockSignature);
        }
        let txs_hash = Block::hash_transactions(block.transactions.as_slice());
        if !(block.header.transactions_hash == txs_hash) {
            return Err(ValidationError::TransactionsHashMismatch);
        }
        let mut working = self.state.duplicate();
        let txs_len = block.transactions.len();
        let mut i: usize = 0;
        proof {
            assert(block@.transactions.skip(0) =~= block@.transactions);
        }
        #[verifier::loop_isolation(false)]
        while i < txs_len
            invariant
                working.wf(),
                *self == *old(self),
                old(self).wf(),
                txs_len == block@.transactions.len(),
                i <= txs_len,
                working.total() == old(self).state.total(),
                spec_apply_txs(old(self).state.map_view(), block@.transactions)
                    == spec_apply_txs(working.map_view(), block@.transactions.skip(i as int)),
            decreases txs_len - i,
        {
            let ghost rest = block@.transactions.skip(i as int);
            let ghost w0 = working.map_view();
            proof {
                assert(rest.first() == block@.transactions[i as int]);
                assert(rest.drop_first() =~= block@.transactions.skip(i + 1));
            }
            match apply_transaction(&mut working, &block.transactions[i]) {
                Ok(()) => {
                    proof {
                        assert(spec_apply_txs(w0, rest) == spec_apply_txs(
                            spec_apply_tx(w0, rest.first()),
                            rest.drop_first(),
                        ));
                    }
                },
                Err(e) => {
                    proof {
                        assert(spec_apply_txs(w0, rest) == Err::<
                            Map<Seq<char>, AccountState>,
                            ValidationError,
                        >(e));
                    }
                    return Err(e);
                },
            }
            i = i + 1;
        }
        proof {
            assert(block@.transactions.skip(txs_len as int) =~= Seq::<TxView>::empty());
            assert(spec_apply_txs(working.map_view(), block@.transactions.skip(txs_len as int))
                == Ok::<Map<Seq<char>, AccountState>, ValidationError>(working.map_view()));
        }
        self.state = working;
        let ghost blocks_before = self.blocks.deep_view();
        self.blocks.push(block);
        proof {
            assert(self.blocks.deep_view() =~= blocks_before.push(block@));
        }
        Ok(())
    }
}

/// The reserved identity under which the genesis block stands.
fn system_identity() -> (r: String)
    ensures
        r@ == "system"@,
{
    "system".to_owned()
}

/// Checks `tx` against the working state and applies it if valid: this is
/// one step of the fold that `validate_and_add_block` commits. On error
/// the working state and its balance total are unchanged; on success the
/// balance total is unchanged — the transfer moves value between the two
/// accounts.
fn apply_transaction(working: &mut Accounts, tx: &Transaction) -> (r: Result<(), ValidationError>)
    requires
        old(working).wf(),
    ensures
        final(working).wf(),
        match r {
            Ok(()) => {
                &&& spec_tx_error(old(working).map_view(), tx@) is None
                &&& final(working).map_view() == spec_apply_tx(old(working).map_view(), tx@)
                &&& final(working).total() == old(working).total()
            },
            Err(e) => {
                &&& spec_tx_error(old(working).map_view(), tx@) == Some(e)
                &&& final(working).map_view() == old(working).map_view()
                &&& final(working).total() == old(working).total()
            },
        },
{
    if !Wallet::verify_signature(tx.sender.as_str(), tx.hash.as_str().as_bytes(), &tx.signature) {
        return Err(ValidationError::InvalidTransactionSignature);
    }
    let sender = working.get_account(&tx.sender);
    if sender.nonce != tx.nonce {
        return Err(ValidationError::NonceMismatch);
    }
    if sender.balance < tx.amount {
        return Err(ValidationError::InsufficientFunds);
    }
    if tx.nonce == u64::MAX {
        return Err(ValidationError::ArithmeticOverflow);
    }
    if tx.recipient != tx.sender {
        let recipient = working.get_account(&tx.recipient);
        if recipient.balance > u64::MAX - tx.amount {
            return Err(ValidationError::ArithmeticOverflow);
        }
    }
    working.set_account(
        &tx.sender,
        AccountState { nonce: tx.nonce + 1, balance: sender.balance - tx.amount },
    );
    let recipient = working.get_account(&tx.recipient);
    working.set_account(
        &tx.recipient,
        AccountState { nonce: recipient.nonce, balance: recipient.balance + tx.amount },
    );
    Ok(())
}

/// Nonce monotonicity: a transaction carrying exactly the sender's
/// current nonce applies and advances that nonce to `n + 1`, and the very
/// same transaction, replayed against the advanced state, is rejected
/// with `NonceMismatch`.
pub proof fn lemma_nonce_monotonic(m: Map<Seq<char>, AccountState>, tx: TxView)
    requires
        spec_tx_error(m, tx) is None,
    ensures
        account_of(m, tx.sender).nonce == tx.nonce,
        account_of(spec_apply_tx(m, tx), tx.sender).nonce == tx.nonce + 1,
        spec_tx_error(spec_apply_tx(m, tx), tx) == Some(ValidationError::NonceMismatch),
{
}

/// The proposer cannot self-exempt: a block whose header links to the
/// current tip, names a validator from the set, carries that validator's
/// valid signature over its digest, and binds its transaction list — as
/// every block the proposer builds does — passes every structural check,
/// so the ledger's verdict on it is exactly the verdict of its
/// transaction fold.
pub proof fn lemma_proposed_block_passes_structural_checks(chain: Blockchain, b: BlockView)
    requires
        chain.blocks@.len() >= 1,
        b.header.id == chain.tip().id + 1,
        b.header.previous_hash == header_digest(chain.tip()),
        spec_is_validator(chain.validator_set.deep_view(), b.header.validator_pubkey),
        b.signature.len() == 64,
        ed25519_verifies(
            b.header.validator_pubkey,
            encode_utf8(header_digest(b.header)),
            b.signature,
        ),
        b.header.transactions_hash == txs_digest(b.transactions),
    ensures
        chain.spec_commit_error(b) == match spec_apply_txs(chain.state.map_view(), b.transactions) {
            Ok(_) => None::<ValidationError>,
            Err(e) => Some(e),
        },
{
}

/// Chain linkage: a block at the right height whose previous-hash field
/// is not the digest of the current tip header is rejected with
/// `PreviousHashMismatch`, whatever else it carries.
pub proof fn lemma_chain_linkage(chain: Blockchain, b: BlockView)
    requires
        b.header.id == chain.tip().id + 1,
        b.header.previous_hash != header_digest(chain.tip()),
    ensures
        chain.spec_commit_error(b) == Some(ValidationError::PreviousHashMismatch),
{
}

} // verus!
