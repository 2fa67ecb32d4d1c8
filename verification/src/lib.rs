//! A proof-of-authority blockchain node core: signed transactions are staged
//! in a bounded pool, batched into cryptographically linked blocks by an
//! authorized validator, validated and committed by a ledger that owns the
//! account state, and disseminated over a gossip layer that scores peers by
//! the validity of what they relay.

pub mod accounts;
pub mod block;
pub mod blockchain;
pub mod clock;
pub mod codec;
pub mod config;
pub mod mempool;
pub mod p2p;
pub mod validator;
pub mod wallet;
pub mod xrpl_witness;
