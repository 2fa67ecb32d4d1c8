//! The node's configuration surface.
//!
//! These are the startup parameters the node's constructors consume:
//! listen addresses, the witness endpoint, the validator-set file, and the
//! optional validator key file. Reading and parsing the configuration file
//! is I/O and lives outside this crate; the values arrive here as plain
//! data.

use vstd::prelude::*;

verus! {

/// Everything the node is configured with.
pub struct Config {
    pub api: ApiConfig,
    pub p2p: P2pConfig,
    pub witness: WitnessConfig,
    pub chain: ChainConfig,
    /// Present only on nodes that propose blocks.
    pub validator: Option<ValidatorConfig>,
}

/// Where the transaction-ingress endpoint listens.
pub struct ApiConfig {
    pub listen_address: String,
}

/// Where the peer transport listens.
pub struct P2pConfig {
    pub listen_address: String,
}

/// How the cross-chain witness reaches its ledger.
pub struct WitnessConfig {
    pub xrpl_node_url: String,
    pub door_account: String,
    pub confirmation_threshold: u32,
}

/// Where the validator set is read from.
pub struct ChainConfig {
    pub validators_file: String,
}

/// Where the proposing validator's key is read from.
pub struct ValidatorConfig {
    pub key_file: String,
}

} // verus!
