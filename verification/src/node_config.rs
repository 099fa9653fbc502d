use vstd::prelude::*;

use crate::common::{NodeKeypairs, ValidatorSeedPeer};
use crate::content::{filer_base, trim_slashes};
use crate::text::{decimal_chars, push_decimal, push_text};

verus! {

/// The ports a fullnode listens on.
#[derive(Debug, Clone, Copy)]
pub struct FullnodePorts {
    pub net: u64,
    pub rpc: u64,
    pub metrics: u64,
    pub admin: u64,
    pub p2p: u64,
}

/// The archive bucket of a network.
#[derive(Debug, Clone)]
pub struct ArchiveSpec {
    pub endpoint: String,
    pub bucket: String,
    pub region: String,
    pub interval_epochs: u64,
}

/// Where a node's pod keeps its database, its genesis blob and the archive
/// credentials, and the names of the two credential files.
#[derive(Debug, Clone)]
pub struct NodePaths {
    pub db_path: String,
    pub consensus_db_path: String,
    pub genesis_blob_path: String,
    pub creds_dir: String,
    pub access_key_file: String,
    pub secret_key_file: String,
}

/// How long a node keeps its history.
#[derive(Debug, Clone, Copy, PartialEq, Eq, Structural)]
pub struct Pruning {
    pub num_latest_epoch_dbs_to_retain: u32,
    pub epoch_db_pruning_period_secs: u64,
    pub num_epochs_to_retain: u32,
    pub num_epochs_to_retain_for_checkpoints: u32,
    pub max_checkpoints_in_batch: u64,
    pub max_transactions_in_batch: u64,
}

/// Where an archiving fullnode writes state snapshots.
#[derive(Debug, Clone)]
pub struct SnapshotStore {
    pub bucket: String,
    pub endpoint: String,
    pub region: String,
    pub archive_interval_epochs: u64,
}

/// The configuration file of a fullnode, as far as it depends on the
/// network (the rest of the file is constant).
#[derive(Debug, Clone)]
pub struct FullnodeConfig {
    pub keys: NodeKeypairs,
    pub db_path: String,
    pub network_address: String,
    pub json_rpc_address: String,
    pub metrics_address: String,
    pub admin_interface_port: u16,
    pub enable_index_processing: bool,
    pub p2p_listen_address: String,
    pub p2p_external_address: String,
    pub seed_peers: Vec<ValidatorSeedPeer>,
    pub genesis_file_location: String,
    pub pruning: Pruning,
    pub db_checkpoints_at_epoch_end: bool,
    pub ingestion_url: String,
    pub remote_store_options: Vec<(String, String)>,
    pub snapshot: Option<SnapshotStore>,
}

/// `{service}-0.{service}`: the DNS name of the first pod of a service.
pub open spec fn pod_dns(service: Seq<char>) -> Seq<char> {
    service + "-0."@ + service
}

/// `{before}{n}{after}`.
pub open spec fn numbered(before: Seq<char>, n: nat, after: Seq<char>) -> Seq<char> {
    before + decimal_chars(n) + after
}

fn numbered_text(before: &str, n: u64, after: &str) -> (r: String)
    ensures
        r@ == numbered(before@, n as nat, after@),
{
    let mut s = String::new();
    push_text(&mut s, before);
    push_decimal(&mut s, n);
    push_text(&mut s, after);
    s
}

fn pod_dns_text(service: &str) -> (r: String)
    ensures
        r@ == pod_dns(service@),
{
    let mut s = String::new();
    push_text(&mut s, service);
    push_text(&mut s, "-0.");
    push_text(&mut s, service);
    s
}

/// The history a fullnode keeps: an archiving node keeps no epochs beyond
/// the latest; a reading node keeps one epoch and two of checkpoints.
pub open spec fn fullnode_pruning(writes_archive: bool) -> Pruning {
    Pruning {
        num_latest_epoch_dbs_to_retain: 3,
        epoch_db_pruning_period_secs: 3600,
        num_epochs_to_retain: if writes_archive {
            0
        } else {
            1
        },
        num_epochs_to_retain_for_checkpoints: if writes_archive {
            0
        } else {
            2
        },
        max_checkpoints_in_batch: 1000,
        max_transactions_in_batch: 1000,
    }
}

/// `{dir}/{file}`.
pub open spec fn in_dir(dir: Seq<char>, file: Seq<char>) -> Seq<char> {
    dir + "/"@ + file
}

fn in_dir_text(dir: &str, file: &str) -> (r: String)
    ensures
        r@ == in_dir(dir@, file@),
{
    let mut s = String::new();
    push_text(&mut s, dir);
    push_text(&mut s, "/");
    push_text(&mut s, file);
    s
}

/// Builds the configuration of a fullnode that serves reads
/// (`writes_archive` false) or writes the network's archive.
pub fn fullnode_config(
    service: &str,
    writes_archive: bool,
    keys: NodeKeypairs,
    seed_peers: Vec<ValidatorSeedPeer>,
    ports: FullnodePorts,
    archive: &ArchiveSpec,
    paths: &NodePaths,
) -> (r: FullnodeConfig)
    ensures
        r.keys == keys,
        r.seed_peers == seed_peers,
        r.db_path@ == paths.db_path@,
        r.network_address@ == "/dns/"@ + pod_dns(service@) + numbered("/tcp/"@, ports.net as nat, "/https"@),
        r.json_rpc_address@ == numbered("0.0.0.0:"@, ports.rpc as nat, ""@),
        r.metrics_address@ == numbered("0.0.0.0:"@, ports.metrics as nat, ""@),
        r.admin_interface_port == ports.admin as u16,
        r.enable_index_processing == !writes_archive,
        r.p2p_listen_address@ == numbered("0.0.0.0:"@, ports.p2p as nat, ""@),
        r.p2p_external_address@ == "/dns/"@ + pod_dns(service@) + numbered("/udp/"@, ports.p2p as nat, ""@),
        r.genesis_file_location@ == paths.genesis_blob_path@,
        r.pruning == fullnode_pruning(writes_archive),
        r.db_checkpoints_at_epoch_end == writes_archive,
        r.ingestion_url@ == trim_slashes(archive.endpoint@) + "/"@ + archive.bucket@,
        r.remote_store_options@.len() == 2,
        r.remote_store_options@[0].0@ == "aws_access_key_id"@,
        r.remote_store_options@[0].1@ == in_dir(paths.creds_dir@, paths.access_key_file@),
        r.remote_store_options@[1].0@ == "aws_secret_access_key"@,
        r.remote_store_options@[1].1@ == in_dir(paths.creds_dir@, paths.secret_key_file@),
        writes_archive ==> (r.snapshot matches Some(s) && s.bucket@ == archive.bucket@ && s.endpoint@
            == archive.endpoint@ && s.region@ == archive.region@ && s.archive_interval_epochs
            == archive.interval_epochs),
        !writes_archive ==> r.snapshot is None,
{
    proof {
        reveal_strlit("");
    }
    let dns = pod_dns_text(service);
    let mut network_address = "/dns/".to_string();
    push_text(&mut network_address, dns.as_str());
    let tail = numbered_text("/tcp/", ports.net, "/https");
    push_text(&mut network_address, tail.as_str());
    let mut external = "/dns/".to_string();
    push_text(&mut external, dns.as_str());
    let utail = numbered_text("/udp/", ports.p2p, "");
    push_text(&mut external, utail.as_str());
    let mut ingestion_url = filer_base(archive.endpoint.as_str());
    push_text(&mut ingestion_url, "/");
    push_text(&mut ingestion_url, archive.bucket.as_str());
    let mut options: Vec<(String, String)> = Vec::new();
    options.push(
        (
            "aws_access_key_id".to_string(),
            in_dir_text(paths.creds_dir.as_str(), paths.access_key_file.as_str()),
        ),
    );
    options.push(
        (
            "aws_secret_access_key".to_string(),
            in_dir_text(paths.creds_dir.as_str(), paths.secret_key_file.as_str()),
        ),
    );
    let pruning = Pruning {
        num_latest_epoch_dbs_to_retain: 3,
        epoch_db_pruning_period_secs: 3600,
        num_epochs_to_retain: if writes_archive {
            0
        } else {
            1
        },
        num_epochs_to_retain_for_checkpoints: if writes_archive {
            0
        } else {
            2
        },
        max_checkpoints_in_batch: 1000,
        max_transactions_in_batch: 1000,
    };
    let snapshot = if writes_archive {
        Some(
            SnapshotStore {
                bucket: archive.bucket.clone(),
                endpoint: archive.endpoint.clone(),
                region: archive.region.clone(),
                archive_interval_epochs: archive.interval_epochs,
            },
        )
    } else {
        None
    };
    FullnodeConfig {
        keys,
        db_path: paths.db_path.clone(),
        network_address,
        json_rpc_address: numbered_text("0.0.0.0:", ports.rpc, ""),
        metrics_address: numbered_text("0.0.0.0:", ports.metrics, ""),
        admin_interface_port: ports.admin as u16,
        enable_index_processing: !writes_archive,
        p2p_listen_address: numbered_text("0.0.0.0:", ports.p2p, ""),
        p2p_external_address: external,
        seed_peers,
        genesis_file_location: paths.genesis_blob_path.clone(),
        pruning,
        db_checkpoints_at_epoch_end: writes_archive,
        ingestion_url,
        remote_store_options: options,
        snapshot,
    }
}

/// Where a validator's checkpoints are archived, with the credentials it
/// uses.
#[derive(Debug, Clone)]
pub struct ValidatorObjectStore {
    pub bucket: String,
    pub endpoint: String,
    pub region: String,
    pub access_key_id: String,
    pub secret_access_key: String,
}

/// The configuration file of a validator, as far as it depends on the
/// network (the rest of the file is constant).
#[derive(Debug, Clone)]
pub struct ValidatorConfig {
    pub keys: NodeKeypairs,
    pub db_path: String,
    pub consensus_db_path: String,
    pub network_address: String,
    pub metrics_address: String,
    pub p2p_listen_address: String,
    pub p2p_external_address: String,
    pub genesis_file_location: String,
    pub object_store: ValidatorObjectStore,
}

/// Builds the configuration of a validator: its network address sits one
/// port below its peer-to-peer port and its metrics one port above.
pub fn validator_config(
    service: &str,
    p2p_port: u64,
    keys: NodeKeypairs,
    archive: &ArchiveSpec,
    paths: &NodePaths,
    access_key: &str,
    secret_key: &str,
) -> (r: ValidatorConfig)
    requires
        1 <= p2p_port < u64::MAX,
    ensures
        r.keys == keys,
        r.db_path@ == paths.db_path@,
        r.consensus_db_path@ == paths.consensus_db_path@,
        r.network_address@ == "/dns/"@ + pod_dns(service@) + numbered("/tcp/"@, (p2p_port - 1) as nat, "/https"@),
        r.metrics_address@ == numbered("0.0.0.0:"@, (p2p_port + 1) as nat, ""@),
        r.p2p_listen_address@ == numbered("0.0.0.0:"@, p2p_port as nat, ""@),
        r.p2p_external_address@ == "/dns/"@ + pod_dns(service@) + numbered("/udp/"@, p2p_port as nat, "/https"@),
        r.genesis_file_location@ == paths.genesis_blob_path@,
        r.object_store.bucket@ == archive.bucket@,
        r.object_store.endpoint@ == archive.endpoint@,
        r.object_store.region@ == archive.region@,
        r.object_store.access_key_id@ == access_key@,
        r.object_store.secret_access_key@ == secret_key@,
{
    proof {
        reveal_strlit("");
    }
    let dns = pod_dns_text(service);
    let mut network_address = "/dns/".to_string();
    push_text(&mut network_address, dns.as_str());
    let tail = numbered_text("/tcp/", p2p_port - 1, "/https");
    push_text(&mut network_address, tail.as_str());
    let mut external = "/dns/".to_string();
    push_text(&mut external, dns.as_str());
    let utail = numbered_text("/udp/", p2p_port, "/https");
    push_text(&mut external, utail.as_str());
    ValidatorConfig {
        keys,
        db_path: paths.db_path.clone(),
        consensus_db_path: paths.consensus_db_path.clone(),
        network_address,
        metrics_address: numbered_text("0.0.0.0:", p2p_port + 1, ""),
        p2p_listen_address: numbered_text("0.0.0.0:", p2p_port, ""),
        p2p_external_address: external,
        genesis_file_location: paths.genesis_blob_path.clone(),
        object_store: ValidatorObjectStore {
            bucket: archive.bucket.clone(),
            endpoint: archive.endpoint.clone(),
            region: archive.region.clone(),
            access_key_id: access_key.to_string(),
            secret_access_key: secret_key.to_string(),
        },
    }
}

} // verus!
