//! The transaction and block data model, with its canonical digests.
//!
//! A transaction's hash is the digest of its sender, recipient, amount and
//! nonce; it is computed once at construction, together with the sender's
//! signature over it, so a transaction can never exist unsigned or with a
//! stale hash. A block binds an ordered transaction list to a header, and
//! the header's digest is both the block's identity and the message the
//! validator signs.

use vstd::prelude::*;
use vstd::string::StringSliceAdditionalSpecFns;
use vstd::utf8::encode_utf8;
use crate::codec::{
    append_bytes, append_i64_field, append_str_field, append_u64_field, digest, digest_of,
    lemma_i64_field_injective, lemma_str_field_injective, lemma_u64_field_injective, str_field,
    u64_field, i64_field,
};
use crate::wallet::{ed25519_verifies, Signature, Wallet};

verus! {

/// The mathematical value of a transaction: every field as a plain
/// sequence or integer.
#[verifier::ext_equal]
pub ghost struct TxView {
    pub sender: Seq<char>,
    pub recipient: Seq<char>,
    pub amount: u64,
    pub nonce: u64,
    pub hash: Seq<char>,
    pub signature: Seq<u8>,
}

/// The canonical bytes whose digest identifies a transaction: sender,
/// recipient, amount and nonce, in that order.
pub open spec fn tx_core_bytes(
    sender: Seq<char>,
    recipient: Seq<char>,
    amount: u64,
    nonce: u64,
) -> Seq<u8> {
    str_field(sender) + str_field(recipient) + u64_field(amount) + u64_field(nonce)
}

/// A transaction's hash: the digest of its canonical bytes.
pub open spec fn tx_digest(
    sender: Seq<char>,
    recipient: Seq<char>,
    amount: u64,
    nonce: u64,
) -> Seq<char> {
    digest_of(tx_core_bytes(sender, recipient, amount, nonce))
}

impl TxView {
    /// The stored hash is the digest of the stored fields.
    pub open spec fn hash_ok(self) -> bool {
        self.hash == tx_digest(self.sender, self.recipient, self.amount, self.nonce)
    }

    /// The stored signature is the sender's valid signature over the
    /// stored hash's UTF-8 bytes.
    pub open spec fn sig_ok(self) -> bool {
        &&& self.signature.len() == 64
        &&& ed25519_verifies(self.sender, encode_utf8(self.hash), self.signature)
    }
}

/// A transfer of `amount` from `sender` to `recipient` at the sender's
/// `nonce`, identified by `hash` and authorized by `signature`.
pub struct Transaction {
    pub sender: String,
    pub recipient: String,
    pub amount: u64,
    pub nonce: u64,
    pub hash: String,
    pub signature: Signature,
}

impl View for Transaction {
    type V = TxView;

    open spec fn view(&self) -> TxView {
        TxView {
            sender: self.sender@,
            recipient: self.recipient@,
            amount: self.amount,
            nonce: self.nonce,
            hash: self.hash@,
            signature: self.signature@,
        }
    }
}

impl DeepView for Transaction {
    type V = TxView;

    open spec fn deep_view(&self) -> TxView {
        self@
    }
}

impl Clone for Transaction {
    fn clone(&self) -> (r: Self)
        ensures
            r@ == self@,
    {
        let r = Transaction {
            sender: self.sender.clone(),
            recipient: self.recipient.clone(),
            amount: self.amount,
            nonce: self.nonce,
            hash: self.hash.clone(),
            signature: self.signature.clone(),
        };
        proof {
            assert(r@ =~= self@);
        }
        r
    }
}

/// Transactions are identified by their hash alone: two transactions
/// with equal hashes are the same transaction.
impl PartialEq for Transaction {
    fn eq(&self, other: &Self) -> (r: bool) {
        self.hash == other.hash
    }
}

impl vstd::std_specs::cmp::PartialEqSpecImpl for Transaction {
    open spec fn obeys_eq_spec() -> bool {
        true
    }

    open spec fn eq_spec(&self, other: &Self) -> bool {
        self.hash@ == other.hash@
    }
}

impl Transaction {
    /// Builds and signs a transfer. The hash is computed from the given
    /// fields and the signing wallet's public key id, and the signature is
    /// produced inline, so the result is well-formed by construction.
    pub fn new(sender_wallet: &Wallet, recipient: String, amount: u64, nonce: u64) -> (tx:
        Transaction)
        ensures
            tx@.sender == sender_wallet.pubkey(),
            tx@.recipient == recipient@,
            tx@.amount == amount,
            tx@.nonce == nonce,
            tx@.hash == tx_digest(sender_wallet.pubkey(), recipient@, amount, nonce),
            tx@.hash.len() == 64,
            tx@.hash_ok(),
            tx@.sig_ok(),
    {
        let sender = sender_wallet.public_key_hex();
        let mut buf: Vec<u8> = Vec::new();
        append_str_field(&mut buf, sender.as_str());
        append_str_field(&mut buf, recipient.as_str());
        append_u64_field(&mut buf, amount);
        append_u64_field(&mut buf, nonce);
        proof {
            assert(buf@ =~= tx_core_bytes(sender@, recipient@, amount, nonce));
        }
        let hash = digest(buf.as_slice());
        let signature = sender_wallet.sign(hash.as_str().as_bytes());
        Transaction { sender, recipient, amount, nonce, hash, signature }
    }
}

/// The mathematical value of a block header.
#[verifier::ext_equal]
pub ghost struct HeaderView {
    pub id: u64,
    pub timestamp: i64,
    pub previous_hash: Seq<char>,
    pub validator_pubkey: Seq<char>,
    pub transactions_hash: Seq<char>,
}

/// A block header: the height, the proposal time, the parent header's
/// digest, the proposing validator's public key id, and the digest of the
/// block's transaction list.
pub struct BlockHeader {
    pub id: u64,
    pub timestamp: i64,
    pub previous_hash: String,
    pub validator_pubkey: String,
    pub transactions_hash: String,
}

impl View for BlockHeader {
    type V = HeaderView;

    open spec fn view(&self) -> HeaderView {
        HeaderView {
            id: self.id,
            timestamp: self.timestamp,
            previous_hash: self.previous_hash@,
            validator_pubkey: self.validator_pubkey@,
            transactions_hash: self.transactions_hash@,
        }
    }
}

impl DeepView for BlockHeader {
    type V = HeaderView;

    open spec fn deep_view(&self) -> HeaderView {
        self@
    }
}

impl Clone for BlockHeader {
    fn clone(&self) -> (r: Self)
        ensures
            r@ == self@,
    {
        let r = BlockHeader {
            id: self.id,
            timestamp: self.timestamp,
            previous_hash: self.previous_hash.clone(),
            validator_pubkey: self.validator_pubkey.clone(),
            transactions_hash: self.transactions_hash.clone(),
        };
        proof {
            assert(r@ =~= self@);
        }
        r
    }
}

/// The canonical bytes of a header: every field in a fixed order.
pub open spec fn header_bytes(h: HeaderView) -> Seq<u8> {
    u64_field(h.id) + i64_field(h.timestamp) + str_field(h.previous_hash) + str_field(
        h.validator_pubkey,
    ) + str_field(h.transactions_hash)
}

/// A header's digest: the block's identity, and the message the validator
/// signs.
pub open spec fn header_digest(h: HeaderView) -> Seq<char> {
    digest_of(header_bytes(h))
}

impl BlockHeader {
    /// The digest of this header.
    pub fn digest_string(&self) -> (r: String)
        ensures
            r@ == header_digest(self@),
            r@.len() == 64,
    {
        let mut buf: Vec<u8> = Vec::new();
        append_u64_field(&mut buf, self.id);
        append_i64_field(&mut buf, self.timestamp);
        append_str_field(&mut buf, self.previous_hash.as_str());
        append_str_field(&mut buf, self.validator_pubkey.as_str());
        append_str_field(&mut buf, self.transactions_hash.as_str());
        proof {
            assert(buf@ =~= header_bytes(self@));
        }
        digest(buf.as_slice())
    }
}

/// The mathematical value of a block.
#[verifier::ext_equal]
pub ghost struct BlockView {
    pub header: HeaderView,
    pub transactions: Seq<TxView>,
    pub signature: Seq<u8>,
}

/// A block: a header, the ordered transactions it binds, and the
/// validator's signature over the header's digest.
pub struct Block {
    pub header: BlockHeader,
    pub transactions: Vec<Transaction>,
    pub signature: Signature,
}

impl View for Block {
    type V = BlockView;

    open spec fn view(&self) -> BlockView {
        BlockView {
            header: self.header@,
            transactions: self.transactions.deep_view(),
            signature: self.signature@,
        }
    }
}

impl DeepView for Block {
    type V = BlockView;

    open spec fn deep_view(&self) -> BlockView {
        self@
    }
}

/// The canonical bytes of one transaction inside a transaction list: its
/// core bytes, its hash, and its signature bytes, each closed by a
/// terminator.
pub open spec fn tx_record_bytes(t: TxView) -> Seq<u8> {
    tx_core_bytes(t.sender, t.recipient, t.amount, t.nonce) + str_field(t.hash) + t.signature
        + seq![0xffu8]
}

/// The canonical bytes of an ordered transaction list.
pub open spec fn txs_bytes(txs: Seq<TxView>) -> Seq<u8>
    decreases txs.len(),
{
    if txs.len() == 0 {
        Seq::<u8>::empty()
    } else {
        txs_bytes(txs.drop_last()) + tx_record_bytes(txs.last())
    }
}

/// The digest binding a header to an exact, order-sensitive transaction
/// list.
pub open spec fn txs_digest(txs: Seq<TxView>) -> Seq<char> {
    digest_of(txs_bytes(txs))
}

/// Appends the canonical bytes of one transaction record.
fn append_tx_record(buf: &mut Vec<u8>, tx: &Transaction)
    ensures
        final(buf)@ == old(buf)@ + tx_record_bytes(tx@),
{
    append_str_field(buf, tx.sender.as_str());
    append_str_field(buf, tx.recipient.as_str());
    append_u64_field(buf, tx.amount);
    append_u64_field(buf, tx.nonce);
    append_str_field(buf, tx.hash.as_str());
    append_bytes(buf, tx.signature.bytes.as_slice());
    buf.push(0xff);
    proof {
        assert(buf@ =~= old(buf)@ + tx_record_bytes(tx@));
    }
}

impl Block {
    /// The digest of this block's header.
    pub fn calculate_header_hash(&self) -> (r: String)
        ensures
            r@ == header_digest(self.header@),
            r@.len() == 64,
    {
        self.header.digest_string()
    }

    /// The digest of an ordered transaction list.
    pub fn hash_transactions(transactions: &[Transaction]) -> (r: String)
        ensures
            r@ == txs_digest(transactions.deep_view()),
            r@.len() == 64,
    {
        let mut buf: Vec<u8> = Vec::new();
        let mut i: usize = 0;
        while i < transactions.len()
            invariant
                i <= transactions@.len(),
                buf@ == txs_bytes(transactions.deep_view().take(i as int)),
            decreases transactions@.len() - i,
        {
            append_tx_record(&mut buf, &transactions[i]);
            proof {
                let views = transactions.deep_view();
                assert(views.take(i + 1).drop_last() =~= views.take(i as int));
                assert(views.take(i + 1).last() == views[i as int]);
            }
            i = i + 1;
        }
        proof {
            assert(transactions.deep_view().take(transactions@.len() as int)
                =~= transactions.deep_view());
        }
        digest(buf.as_slice())
    }
}

/// The canonical header serialization is injective: two headers that lay
/// out to the same bytes are the same header. Together with the
/// collision resistance of the hash, this is what lets a header digest
/// stand for the header itself.
pub proof fn lemma_header_bytes_injective(h1: HeaderView, h2: HeaderView)
    requires
        header_bytes(h1) == header_bytes(h2),
    ensures
        h1 == h2,
{
    let e = Seq::<u8>::empty();
    let t1 = str_field(h1.transactions_hash) + e;
    let t2 = str_field(h2.transactions_hash) + e;
    let v1 = str_field(h1.validator_pubkey) + t1;
    let v2 = str_field(h2.validator_pubkey) + t2;
    let p1 = str_field(h1.previous_hash) + v1;
    let p2 = str_field(h2.previous_hash) + v2;
    let s1 = i64_field(h1.timestamp) + p1;
    let s2 = i64_field(h2.timestamp) + p2;
    assert(header_bytes(h1) =~= u64_field(h1.id) + s1);
    assert(header_bytes(h2) =~= u64_field(h2.id) + s2);
    lemma_u64_field_injective(h1.id, h2.id, s1, s2);
    lemma_i64_field_injective(h1.timestamp, h2.timestamp, p1, p2);
    lemma_str_field_injective(h1.previous_hash, h2.previous_hash, v1, v2);
    lemma_str_field_injective(h1.validator_pubkey, h2.validator_pubkey, t1, t2);
    lemma_str_field_injective(h1.transactions_hash, h2.transactions_hash, e, e);
}

/// The canonical transaction layout is injective: two transactions whose
/// identifying fields lay out to the same bytes agree on sender,
/// recipient, amount and nonce. Together with the collision resistance
/// of the hash, this is what lets a transaction hash stand as the
/// transaction's identity.
pub proof fn lemma_tx_core_bytes_injective(
    sender1: Seq<char>,
    recipient1: Seq<char>,
    amount1: u64,
    nonce1: u64,
    sender2: Seq<char>,
    recipient2: Seq<char>,
    amount2: u64,
    nonce2: u64,
)
    requires
        tx_core_bytes(sender1, recipient1, amount1, nonce1) == tx_core_bytes(
            sender2,
            recipient2,
            amount2,
            nonce2,
        ),
    ensures
        sender1 == sender2,
        recipient1 == recipient2,
        amount1 == amount2,
        nonce1 == nonce2,
{
    let e = Seq::<u8>::empty();
    let n1 = u64_field(nonce1) + e;
    let n2 = u64_field(nonce2) + e;
    let a1 = u64_field(amount1) + n1;
    let a2 = u64_field(amount2) + n2;
    let r1 = str_field(recipient1) + a1;
    let r2 = str_field(recipient2) + a2;
    assert(tx_core_bytes(sender1, recipient1, amount1, nonce1) =~= str_field(sender1) + r1);
    assert(tx_core_bytes(sender2, recipient2, amount2, nonce2) =~= str_field(sender2) + r2);
    lemma_str_field_injective(sender1, sender2, r1, r2);
    lemma_str_field_injective(recipient1, recipient2, a1, a2);
    lemma_u64_field_injective(amount1, amount2, n1, n2);
    lemma_u64_field_injective(nonce1, nonce2, e, e);
}

/// Hashing is deterministic: a transaction's digest and a header's digest
/// are pure functions of the hashed fields, so equal structures always
/// yield equal digests, and hashing the same structure twice yields the
/// same digest.
pub proof fn lemma_digest_deterministic(h1: HeaderView, h2: HeaderView, t1: TxView, t2: TxView)
    requires
        h1 == h2,
        t1 == t2,
    ensures
        header_digest(h1) == header_digest(h2),
        tx_digest(t1.sender, t1.recipient, t1.amount, t1.nonce) == tx_digest(
            t2.sender,
            t2.recipient,
            t2.amount,
            t2.nonce,
        ),
{
}

} // verus!
