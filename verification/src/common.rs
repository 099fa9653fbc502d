use vstd::prelude::*;

verus! {

/// A Sui key pair as the key workers write it: the address and the private
/// key, both as text.
#[derive(Debug, Clone)]
pub struct SuiKeypair {
    pub address: String,
    pub private_key: String,
}

/// The four key pairs of a node.
#[derive(Debug, Clone)]
pub struct NodeKeypairs {
    pub protocol_keypair: SuiKeypair,
    pub worker_keypair: SuiKeypair,
    pub account_keypair: SuiKeypair,
    pub network_keypair: SuiKeypair,
}

/// A validator that fullnodes use as a seed peer.
#[derive(Debug, Clone)]
pub struct ValidatorSeedPeer {
    pub address: String,
    pub peer_id: String,
}

/// The network and namespace a worker job runs for.
#[derive(Debug, Clone)]
pub struct WorkerConfig {
    pub network_name: String,
    pub namespace: String,
}

/// An S3 bucket and where its credentials are mounted.
#[derive(Debug, Clone)]
pub struct S3Config {
    pub endpoint: String,
    pub region: String,
    pub bucket: String,
    pub creds_dir: String,
}

/// What the key worker needs.
#[derive(Debug, Clone)]
pub struct KeysConfig {
    pub worker: WorkerConfig,
    pub secret_name: String,
}

/// What the genesis worker needs.
#[derive(Debug, Clone)]
pub struct GenesisConfig {
    pub worker: WorkerConfig,
    pub s3: S3Config,
    pub validator_key_paths: Vec<String>,
    pub validator_service_names: Vec<String>,
    pub sponsor_key_path: String,
    pub validator_port_p2p: u32,
    pub sponsor_gas_object_count: usize,
    pub work_dir: String,
}

/// What the validator configuration worker needs.
#[derive(Debug, Clone)]
pub struct ValidatorsConfig {
    pub worker: WorkerConfig,
    pub s3: S3Config,
    pub config_map_name: String,
}

/// What the Move publish worker needs.
#[derive(Debug, Clone)]
pub struct MovePublishConfig {
    pub worker: WorkerConfig,
    pub repo: String,
    pub git_ref: String,
    pub package_path: String,
    pub publisher_key_base64: String,
    pub config_map_name: String,
    pub rpc_url: String,
}

/// Where a node's configuration and database lie for a snapshot.
#[derive(Debug, Clone)]
pub struct DbSnapshotConfig {
    pub node_config_path: String,
    pub db_path: String,
}

} // verus!
