//! Peer reputation and gossip dispatch.
//!
//! Every connected peer carries a score, zero at connection time. A peer
//! is rewarded for relaying a block or transaction the node accepts and
//! penalized for one it rejects, or for a message that does not parse at
//! all; once a penalty takes the cumulative score below `BAN_THRESHOLD`
//! the caller is told to ban the peer at the transport layer. Inbound
//! messages are a closed tagged union of block and transaction, matched
//! exhaustively at the single dispatch point; outbound messages are
//! published under one of two topics selected by message kind.

use vstd::prelude::*;
use vstd::map::*;
use crate::block::{Block, Transaction};
use crate::blockchain::{spec_apply_txs, Blockchain, ValidationError};
use crate::mempool::{contains_hash, Mempool};

verus! {

/// The cumulative score below which a peer is banned.
pub const BAN_THRESHOLD: i32 = -100;

/// Score added for a relayed block the ledger accepts.
pub const BLOCK_REWARD: i32 = 10;

/// Penalty magnitude for a relayed block the ledger rejects.
pub const BLOCK_PENALTY: i32 = 50;

/// Score added for a relayed transaction the pool accepts.
pub const TRANSACTION_REWARD: i32 = 1;

/// Penalty magnitude for a relayed transaction the pool rejects.
pub const TRANSACTION_PENALTY: i32 = 5;

/// Penalty magnitude for a message that does not parse.
pub const MALFORMED_PENALTY: i32 = 25;

/// What the gossip layer republishes: a closed union of the two message
/// kinds.
pub enum ChainMessage {
    Block(Block),
    Transaction(Transaction),
}

/// The topic blocks are published under.
pub fn chain_topic() -> (r: String)
    ensures
        r@ == "kosher-chain-blocks"@,
{
    "kosher-chain-blocks".to_owned()
}

/// The topic transactions are published under.
pub fn transaction_topic() -> (r: String)
    ensures
        r@ == "kosher-chain-transactions"@,
{
    "kosher-chain-transactions".to_owned()
}

/// The topic a message is published under, selected by its kind.
pub fn topic_for(msg: &ChainMessage) -> (r: String)
    ensures
        msg is Block ==> r@ == "kosher-chain-blocks"@,
        msg is Transaction ==> r@ == "kosher-chain-transactions"@,
{
    match msg {
        ChainMessage::Block(_) => chain_topic(),
        ChainMessage::Transaction(_) => transaction_topic(),
    }
}

/// A score capped at `i32::MAX`: rewards saturate instead of wrapping.
pub open spec fn spec_score_add(score: i32, points: i32) -> i32 {
    if score + points > i32::MAX {
        i32::MAX
    } else {
        (score + points) as i32
    }
}

/// A score floored at `i32::MIN`: penalties saturate instead of wrapping.
pub open spec fn spec_score_sub(score: i32, points: i32) -> i32 {
    if score - points < i32::MIN {
        i32::MIN
    } else {
        (score - points) as i32
    }
}

/// The peer table after rewarding `id` with `points`: unknown peers are
/// left alone.
pub open spec fn spec_after_reward(m: Map<Seq<char>, i32>, id: Seq<char>, points: i32) -> Map<
    Seq<char>,
    i32,
> {
    if m.contains_key(id) {
        m.insert(id, spec_score_add(m[id], points))
    } else {
        m
    }
}

/// The peer table after penalizing `id` by `points`: unknown peers are
/// left alone.
pub open spec fn spec_after_penalty(m: Map<Seq<char>, i32>, id: Seq<char>, points: i32) -> Map<
    Seq<char>,
    i32,
> {
    if m.contains_key(id) {
        m.insert(id, spec_score_sub(m[id], points))
    } else {
        m
    }
}

/// Whether penalizing `id` by `points` leaves its score below the ban
/// threshold.
pub open spec fn spec_crosses_ban(m: Map<Seq<char>, i32>, id: Seq<char>, points: i32) -> bool {
    m.contains_key(id) && spec_score_sub(m[id], points) < BAN_THRESHOLD
}

struct PeerEntry {
    id: String,
    score: i32,
}

/// All entry keys are distinct.
spec fn peer_keys_distinct(s: Seq<PeerEntry>) -> bool {
    forall|i: int, j: int| 0 <= i < j < s.len() ==> s[i].id@ != s[j].id@
}

/// The map from peer id to score an entry sequence denotes.
spec fn seq_peer_map(s: Seq<PeerEntry>) -> Map<Seq<char>, i32>
    decreases s.len(),
{
    if s.len() == 0 {
        Map::<Seq<char>, i32>::empty()
    } else {
        seq_peer_map(s.drop_last()).insert(s.last().id@, s.last().score)
    }
}

proof fn lemma_seq_peer_map_index(s: Seq<PeerEntry>, i: int)
    requires
        peer_keys_distinct(s),
        0 <= i < s.len(),
    ensures
        seq_peer_map(s).contains_key(s[i].id@),
        seq_peer_map(s)[s[i].id@] == s[i].score,
    decreases s.len(),
{
    if i < s.len() - 1 {
        assert(s.drop_last()[i] == s[i]);
        lemma_seq_peer_map_index(s.drop_last(), i);
        assert(s[i].id@ != s.last().id@);
    }
}

proof fn lemma_seq_peer_map_absent(s: Seq<PeerEntry>, k: Seq<char>)
    requires
        forall|j: int| 0 <= j < s.len() ==> s[j].id@ != k,
    ensures
        !seq_peer_map(s).contains_key(k),
    decreases s.len(),
{
    if s.len() > 0 {
        lemma_seq_peer_map_absent(s.drop_last(), k);
    }
}

proof fn lemma_seq_peer_update(s: Seq<PeerEntry>, i: int, e: PeerEntry)
    requires
        peer_keys_distinct(s),
        0 <= i < s.len(),
        e.id@ == s[i].id@,
    ensures
        peer_keys_distinct(s.update(i, e)),
        seq_peer_map(s.update(i, e)) == seq_peer_map(s).insert(e.id@, e.score),
    decreases s.len(),
{
    let t = s.update(i, e);
    assert forall|p: int, q: int| 0 <= p < q < t.len() implies t[p].id@ != t[q].id@ by {
        assert(s[p].id@ != s[q].id@);
    }
    if i == s.len() - 1 {
        assert(t.drop_last() =~= s.drop_last());
        assert(seq_peer_map(t) =~= seq_peer_map(s).insert(e.id@, e.score));
    } else {
        assert(t.drop_last() =~= s.drop_last().update(i, e));
        assert(s.drop_last()[i] == s[i]);
        lemma_seq_peer_update(s.drop_last(), i, e);
        assert(t.last() == s.last());
        assert(e.id@ != s.last().id@);
        assert(seq_peer_map(t) =~= seq_peer_map(s).insert(e.id@, e.score));
    }
}

proof fn lemma_seq_peer_remove(s: Seq<PeerEntry>, i: int)
    requires
        peer_keys_distinct(s),
        0 <= i < s.len(),
    ensures
        peer_keys_distinct(s.remove(i)),
        seq_peer_map(s.remove(i)) == seq_peer_map(s).remove(s[i].id@),
    decreases s.len(),
{
    let t = s.remove(i);
    assert forall|p: int, q: int| 0 <= p < q < t.len() implies t[p].id@ != t[q].id@ by {
        let sp = if p < i {
            p
        } else {
            p + 1
        };
        let sq = if q < i {
            q
        } else {
            q + 1
        };
        assert(t[p] == s[sp] && t[q] == s[sq]);
        assert(s[sp].id@ != s[sq].id@);
    }
    if i == s.len() - 1 {
        assert(t =~= s.drop_last());
        assert(forall|j: int| 0 <= j < t.len() ==> t[j].id@ != s[i].id@);
        lemma_seq_peer_map_absent(t, s[i].id@);
        assert(seq_peer_map(t) =~= seq_peer_map(s).remove(s[i].id@));
    } else {
        assert(t.drop_last() =~= s.drop_last().remove(i));
        assert(s.drop_last()[i] == s[i]);
        lemma_seq_peer_remove(s.drop_last(), i);
        assert(t.last() == s.last());
        assert(s[i].id@ != s.last().id@);
        assert(seq_peer_map(t) =~= seq_peer_map(s).remove(s[i].id@));
    }
}

/// The table of connected peers and their reputation scores.
pub struct PeerManager {
    peers: Vec<PeerEntry>,
}

impl PeerManager {
    /// All peer ids are distinct, so the table denotes its map uniquely.
    pub closed spec fn wf(self) -> bool {
        peer_keys_distinct(self.peers@)
    }

    /// The map from peer id to score this table denotes.
    pub closed spec fn map_view(self) -> Map<Seq<char>, i32> {
        seq_peer_map(self.peers@)
    }

    /// An empty peer table.
    pub fn new() -> (r: PeerManager)
        ensures
            r.wf(),
            r.map_view() == Map::<Seq<char>, i32>::empty(),
    {
        PeerManager { peers: Vec::new() }
    }

    /// The score of a connected peer, or `None` for an unknown id.
    pub fn score_of(&self, id: &String) -> (r: Option<i32>)
        requires
            self.wf(),
        ensures
            match r {
                Some(score) => self.map_view().contains_key(id@) && self.map_view()[id@] == score,
                None => !self.map_view().contains_key(id@),
            },
    {
        let n = self.peers.len();
        let mut i: usize = 0;
        while i < n
            invariant
                self.wf(),
                n == self.peers@.len(),
                i <= n,
                forall|j: int| 0 <= j < i ==> self.peers@[j].id@ != id@,
            decreases n - i,
        {
            if self.peers[i].id == *id {
                proof {
                    lemma_seq_peer_map_index(self.peers@, i as int);
                }
                return Some(self.peers[i].score);
            }
            i = i + 1;
        }
        proof {
            lemma_seq_peer_map_absent(self.peers@, id@);
        }
        None
    }

    /// Registers a newly connected peer with score zero; a peer that is
    /// already connected keeps its score.
    pub fn add_peer(&mut self, id: &String)
        requires
            old(self).wf(),
        ensures
            final(self).wf(),
            final(self).map_view() == if old(self).map_view().contains_key(id@) {
                old(self).map_view()
            } else {
                old(self).map_view().insert(id@, 0)
            },
    {
        let n = self.peers.len();
        let mut i: usize = 0;
        while i < n
            invariant
                self.wf(),
                *self == *old(self),
                n == self.peers@.len(),
                i <= n,
                forall|j: int| 0 <= j < i ==> self.peers@[j].id@ != id@,
            decreases n - i,
        {
            if self.peers[i].id == *id {
                proof {
                    lemma_seq_peer_map_index(self.peers@, i as int);
                }
                return ;
            }
            i = i + 1;
        }
        proof {
            lemma_seq_peer_map_absent(self.peers@, id@);
        }
        self.peers.push(PeerEntry { id: id.clone(), score: 0 });
        proof {
            assert(self.peers@.drop_last() =~= old(self).peers@);
        }
    }

    /// Forgets a disconnected peer; removing an unknown id is a no-op.
    pub fn remove_peer(&mut self, id: &String)
        requires
            old(self).wf(),
        ensures
            final(self).wf(),
            final(self).map_view() == old(self).map_view().remove(id@),
    {
        let n = self.peers.len();
        let mut i: usize = 0;
        while i < n
            invariant
                self.wf(),
                *self == *old(self),
                n == self.peers@.len(),
                i <= n,
                forall|j: int| 0 <= j < i ==> self.peers@[j].id@ != id@,
            decreases n - i,
        {
            if self.peers[i].id == *id {
                proof {
                    lemma_seq_peer_remove(self.peers@, i as int);
                }
                self.peers.remove(i);
                return ;
            }
            i = i + 1;
        }
        proof {
            lemma_seq_peer_map_absent(self.peers@, id@);
            assert(self.map_view().remove(id@) =~= self.map_view());
        }
    }

    /// Applies a positive score adjustment to a connected peer, saturating
    /// at `i32::MAX`: reward has no ban-equivalent ceiling.
    pub fn reward_peer(&mut self, id: &String, points: i32)
        requires
            old(self).wf(),
            points >= 0,
        ensures
            final(self).wf(),
            final(self).map_view() == spec_after_reward(old(self).map_view(), id@, points),
    {
        let n = self.peers.len();
        let mut i: usize = 0;
        while i < n
            invariant
                self.wf(),
                *self == *old(self),
                n == self.peers@.len(),
                i <= n,
                points >= 0,
                forall|j: int| 0 <= j < i ==> self.peers@[j].id@ != id@,
            decreases n - i,
        {
            if self.peers[i].id == *id {
                let score = self.peers[i].score;
                let new_score = if score > i32::MAX - points {
                    i32::MAX
                } else {
                    score + points
                };
                proof {
                    lemma_seq_peer_map_index(self.peers@, i as int);
                    lemma_seq_peer_update(
                        self.peers@,
                        i as int,
                        PeerEntry { id: self.peers@[i as int].id, score: new_score },
                    );
                }
                self.peers[i].score = new_score;
                return ;
            }
            i = i + 1;
        }
        proof {
            lemma_seq_peer_map_absent(self.peers@, id@);
        }
    }

    /// Applies a negative score adjustment of magnitude `points` to a
    /// connected peer, saturating at `i32::MIN`, and reports whether the
    /// adjusted score lies below the ban threshold — in which case the
    /// caller must evict the peer at the transport layer.
    pub fn penalize_peer(&mut self, id: &String, points: i32) -> (banned: bool)
        requires
            old(self).wf(),
            points >= 0,
        ensures
            final(self).wf(),
            final(self).map_view() == spec_after_penalty(old(self).map_view(), id@, points),
            banned == spec_crosses_ban(old(self).map_view(), id@, points),
    {
        let n = self.peers.len();
        let mut i: usize = 0;
        while i < n
            invariant
                self.wf(),
                *self == *old(self),
                n == self.peers@.len(),
                i <= n,
                points >= 0,
                forall|j: int| 0 <= j < i ==> self.peers@[j].id@ != id@,
            decreases n - i,
        {
            if self.peers[i].id == *id {
                let score = self.peers[i].score;
                let new_score = if score < i32::MIN + points {
                    i32::MIN
                } else {
                    score - points
                };
                proof {
                    lemma_seq_peer_map_index(self.peers@, i as int);
                    lemma_seq_peer_update(
                        self.peers@,
                        i as int,
                        PeerEntry { id: self.peers@[i as int].id, score: new_score },
                    );
                }
                self.peers[i].score = new_score;
                return new_score < BAN_THRESHOLD;
            }
            i = i + 1;
        }
        proof {
            lemma_seq_peer_map_absent(self.peers@, id@);
        }
        false
    }
}

/// Dispatch of an inbound gossip block: it is offered to the ledger and
/// the relaying peer is rewarded or penalized by the outcome. The
/// returned flag tells the transport layer to ban the peer.
pub fn handle_gossip_block(
    block: Block,
    chain: &mut Blockchain,
    peers: &mut PeerManager,
    source_peer: &String,
) -> (ban: bool)
    requires
        old(chain).wf(),
        old(peers).wf(),
    ensures
        final(chain).wf(),
        final(peers).wf(),
        final(chain).validator_set == old(chain).validator_set,
        if old(chain).spec_commit_error(block@) is None {
            &&& final(chain).blocks.deep_view() == old(chain).blocks.deep_view().push(block@)
            &&& Ok::<_, ValidationError>(final(chain).state.map_view()) == spec_apply_txs(
                old(chain).state.map_view(),
                block@.transactions,
            )
            &&& final(peers).map_view() == spec_after_reward(
                old(peers).map_view(),
                source_peer@,
                BLOCK_REWARD,
            )
            &&& !ban
        } else {
            &&& final(chain).blocks.deep_view() == old(chain).blocks.deep_view()
            &&& final(chain).state.map_view() == old(chain).state.map_view()
            &&& final(peers).map_view() == spec_after_penalty(
                old(peers).map_view(),
                source_peer@,
                BLOCK_PENALTY,
            )
            &&& ban == spec_crosses_ban(old(peers).map_view(), source_peer@, BLOCK_PENALTY)
        },
{
    if chain.validate_and_add_block(block).is_ok() {
        peers.reward_peer(source_peer, BLOCK_REWARD);
        false
    } else {
        peers.penalize_peer(source_peer, BLOCK_PENALTY)
    }
}

/// Dispatch of an inbound gossip transaction: it is offered to the pool
/// and the relaying peer is rewarded or penalized by the outcome. The
/// returned flag tells the transport layer to ban the peer.
pub fn handle_gossip_transaction(
    tx: Transaction,
    mempool: &mut Mempool,
    peers: &mut PeerManager,
    source_peer: &String,
) -> (ban: bool)
    requires
        old(mempool).wf(),
        old(peers).wf(),
    ensures
        final(mempool).wf(),
        final(peers).wf(),
        final(mempool).capacity() == old(mempool).capacity(),
        if old(mempool).txs().len() < old(mempool).capacity() && !contains_hash(
            old(mempool).txs(),
            tx@.hash,
        ) {
            &&& final(mempool).txs() == old(mempool).txs().push(tx@)
            &&& final(peers).map_view() == spec_after_reward(
                old(peers).map_view(),
                source_peer@,
                TRANSACTION_REWARD,
            )
            &&& !ban
        } else {
            &&& final(mempool).txs() == old(mempool).txs()
            &&& final(peers).map_view() == spec_after_penalty(
                old(peers).map_view(),
                source_peer@,
                TRANSACTION_PENALTY,
            )
            &&& ban == spec_crosses_ban(old(peers).map_view(), source_peer@, TRANSACTION_PENALTY)
        },
{
    if mempool.add_transaction(tx).is_ok() {
        peers.reward_peer(source_peer, TRANSACTION_REWARD);
        false
    } else {
        peers.penalize_peer(source_peer, TRANSACTION_PENALTY)
    }
}

/// The single dispatch point for an inbound gossip message, matched
/// exhaustively over the two kinds. The returned flag tells the
/// transport layer to ban the peer. (A caller that guards the ledger and
/// the pool with separate locks takes only the lock the message kind
/// needs and calls that kind's handler directly.)
pub fn handle_gossip_message(
    msg: ChainMessage,
    chain: &mut Blockchain,
    mempool: &mut Mempool,
    peers: &mut PeerManager,
    source_peer: &String,
) -> (ban: bool)
    requires
        old(chain).wf(),
        old(mempool).wf(),
        old(peers).wf(),
    ensures
        final(chain).wf(),
        final(mempool).wf(),
        final(peers).wf(),
        final(mempool).capacity() == old(mempool).capacity(),
        final(chain).validator_set == old(chain).validator_set,
        match msg {
            ChainMessage::Block(b) => {
                &&& final(mempool).txs() == old(mempool).txs()
                &&& if old(chain).spec_commit_error(b@) is None {
                    &&& final(chain).blocks.deep_view() == old(chain).blocks.deep_view().push(b@)
                    &&& Ok::<_, ValidationError>(final(chain).state.map_view()) == spec_apply_txs(
                        old(chain).state.map_view(),
                        b@.transactions,
                    )
                    &&& final(peers).map_view() == spec_after_reward(
                        old(peers).map_view(),
                        source_peer@,
                        BLOCK_REWARD,
                    )
                    &&& !ban
                } else {
                    &&& final(chain).blocks.deep_view() == old(chain).blocks.deep_view()
                    &&& final(chain).state.map_view() == old(chain).state.map_view()
                    &&& final(peers).map_view() == spec_after_penalty(
                        old(peers).map_view(),
                        source_peer@,
                        BLOCK_PENALTY,
                    )
                    &&& ban == spec_crosses_ban(old(peers).map_view(), source_peer@, BLOCK_PENALTY)
                }
            },
            ChainMessage::Transaction(tx) => {
                &&& final(chain).blocks.deep_view() == old(chain).blocks.deep_view()
                &&& final(chain).state.map_view() == old(chain).state.map_view()
                &&& if old(mempool).txs().len() < old(mempool).capacity() && !contains_hash(
                    old(mempool).txs(),
                    tx@.hash,
                ) {
                    &&& final(mempool).txs() == old(mempool).txs().push(tx@)
                    &&& final(peers).map_view() == spec_after_reward(
                        old(peers).map_view(),
                        source_peer@,
                        TRANSACTION_REWARD,
                    )
                    &&& !ban
                } else {
                    &&& final(mempool).txs() == old(mempool).txs()
                    &&& final(peers).map_view() == spec_after_penalty(
                        old(peers).map_view(),
                        source_peer@,
                        TRANSACTION_PENALTY,
                    )
                    &&& ban == spec_crosses_ban(
                        old(peers).map_view(),
                        source_peer@,
                        TRANSACTION_PENALTY,
                    )
                }
            },
        },
{
    match msg {
        ChainMessage::Block(block) => handle_gossip_block(block, chain, peers, source_peer),
        ChainMessage::Transaction(tx) => handle_gossip_transaction(
            tx,
            mempool,
            peers,
            source_peer,
        ),
    }
}

/// The dispatch outcome for an inbound message that could not be
/// deserialized at all: the relaying peer is penalized without the
/// message being interpreted. The returned flag tells the transport
/// layer to ban the peer.
pub fn handle_malformed_message(peers: &mut PeerManager, source_peer: &String) -> (ban: bool)
    requires
        old(peers).wf(),
    ensures
        final(peers).wf(),
        final(peers).map_view() == spec_after_penalty(
            old(peers).map_view(),
            source_peer@,
            MALFORMED_PENALTY,
        ),
        ban == spec_crosses_ban(old(peers).map_view(), source_peer@, MALFORMED_PENALTY),
{
    peers.penalize_peer(source_peer, MALFORMED_PENALTY)
}

} // verus!
