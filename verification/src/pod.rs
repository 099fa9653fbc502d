use vstd::prelude::*;

use crate::text::push_text;

verus! {

/// Where a node's pod mounts its volumes, and the names of the files and keys
/// that hold the archive credentials.
pub struct PodLayout {
    pub s3_creds_dir: String,
    pub genesis_mount_dir: String,
    pub db_path: String,
    pub pvc_path: String,
    pub sui_config_dir: String,
    pub node_config_key: String,
    pub s3_access_key: String,
    pub s3_secret_key: String,
}

/// The protocol settings a network overrides on its nodes.
pub struct ProtocolOverrides {
    pub max_gas_computation_bucket: String,
    pub base_tx_cost_fixed: String,
    pub max_num_new_move_object_ids: String,
}

/// A named port a container listens on.
pub struct PortSpec {
    pub name: String,
    pub port: u64,
}

/// Where an environment variable's value comes from: a literal, or a key of a
/// secret.
pub enum EnvSource {
    Value(String),
    SecretKey(String, String),
}

/// An environment variable of a container.
pub struct EnvEntry {
    pub name: String,
    pub source: EnvSource,
}

/// A volume mounted into a container.
pub struct Mount {
    pub volume: String,
    pub path: String,
    pub read_only: bool,
}

/// A container of a pod.
pub struct ContainerSpec {
    pub name: String,
    pub image: String,
    pub command: Vec<String>,
    pub args: Vec<String>,
    pub env: Vec<EnvEntry>,
    pub mounts: Vec<Mount>,
    pub requests: Vec<(String, String)>,
    pub ports: Vec<PortSpec>,
}

/// What backs a volume of a pod.
pub enum VolumeSource {
    Secret(String),
    EmptyDir,
}

/// A volume of a pod.
pub struct VolumeSpec {
    pub name: String,
    pub source: VolumeSource,
}

/// A pod of the network: containers that prepare the main one, the main
/// container, the volumes, and whether the pod prefers hosts of its own.
pub struct PodPlan {
    pub init_containers: Vec<ContainerSpec>,
    pub container: ContainerSpec,
    pub volumes: Vec<VolumeSpec>,
    pub termination_grace_secs: i64,
    pub fs_group: Option<i64>,
    pub pull_policy: String,
    pub spread: Option<HostSpread>,
}

/// A preference, of the given weight, to put the pod on a host (`topology`)
/// where no pod with label `label` runs yet.
pub struct HostSpread {
    pub label: String,
    pub topology: String,
    pub weight: i32,
}

/// The spreading of the network's node and relay pods over hosts.
pub open spec fn owner_spread(s: Option<HostSpread>) -> bool {
    s matches Some(sp) && sp.label@ == "ech.bz/owner"@ && sp.topology@ == "kubernetes.io/hostname"@ && sp.weight
        == 100
}

fn spread_by_owner() -> (r: Option<HostSpread>)
    ensures
        owner_spread(r),
{
    Some(HostSpread { label: text("ech.bz/owner"), topology: text("kubernetes.io/hostname"), weight: 100 })
}

/// What a node's pod is built from.
pub struct NodePodInput {
    pub image: String,
    pub component_name: String,
    pub config_secret_name: String,
    pub s3_creds_secret: String,
    pub ports: Vec<PortSpec>,
    pub cpu: String,
    pub memory: String,
    pub enable_db_snapshot_download: bool,
    pub endpoint: String,
    pub bucket: String,
    pub overrides: ProtocolOverrides,
}

/// An environment variable's source by its texts.
pub enum EnvView {
    Value(Seq<char>),
    SecretKey(Seq<char>, Seq<char>),
}

/// A container by its texts.
#[verifier::ext_equal]
pub struct ContainerView {
    pub name: Seq<char>,
    pub image: Seq<char>,
    pub command: Seq<Seq<char>>,
    pub args: Seq<Seq<char>>,
    pub env: Seq<(Seq<char>, EnvView)>,
    pub mounts: Seq<(Seq<char>, Seq<char>, bool)>,
    pub requests: Seq<(Seq<char>, Seq<char>)>,
    pub ports: Seq<(Seq<char>, u64)>,
}

pub open spec fn strs(v: Seq<String>) -> Seq<Seq<char>> {
    v.map_values(|s: String| s@)
}

pub open spec fn env_view(e: EnvEntry) -> (Seq<char>, EnvView) {
    (
        e.name@,
        match e.source {
            EnvSource::Value(v) => EnvView::Value(v@),
            EnvSource::SecretKey(s, k) => EnvView::SecretKey(s@, k@),
        },
    )
}

pub open spec fn mount_view(m: Mount) -> (Seq<char>, Seq<char>, bool) {
    (m.volume@, m.path@, m.read_only)
}

pub open spec fn ports_view(p: Seq<PortSpec>) -> Seq<(Seq<char>, u64)> {
    p.map_values(|x: PortSpec| (x.name@, x.port))
}

pub open spec fn container_view(c: ContainerSpec) -> ContainerView {
    ContainerView {
        name: c.name@,
        image: c.image@,
        command: strs(c.command@),
        args: strs(c.args@),
        env: c.env@.map_values(|e: EnvEntry| env_view(e)),
        mounts: c.mounts@.map_values(|m: Mount| mount_view(m)),
        requests: c.requests@.map_values(|r: (String, String)| (r.0@, r.1@)),
        ports: ports_view(c.ports@),
    }
}

pub open spec fn volume_view(v: VolumeSpec) -> (Seq<char>, Option<Seq<char>>) {
    (
        v.name@,
        match v.source {
            VolumeSource::Secret(s) => Some(s@),
            VolumeSource::EmptyDir => None,
        },
    )
}

/// `$(cat {dir}/{file})`: a shell expansion that reads a credential file.
pub open spec fn cat_file(dir: Seq<char>, file: Seq<char>) -> Seq<char> {
    "$(cat "@ + dir + "/"@ + file + ")"@
}

/// The script that fetches the genesis blob from the archive bucket.
pub open spec fn genesis_script(endpoint: Seq<char>, bucket: Seq<char>, l: PodLayout) -> Seq<char> {
    "mc alias set s3 \""@ + endpoint + "\" \""@ + cat_file(l.s3_creds_dir@, l.s3_access_key@)
        + "\" \""@ + cat_file(l.s3_creds_dir@, l.s3_secret_key@)
        + "\" >/dev/null && mc get --quiet \"s3/"@ + bucket + "/genesis.blob\" \""@
        + l.genesis_mount_dir@ + "/genesis.blob\""@
}

/// The part of the snapshot script that finds the latest `epoch_*` directory
/// of the bucket.
pub open spec fn latest_epoch_scan() -> Seq<char> {
    " >/dev/null; LATEST=\"\"; while IFS= read -r line; do name=\"${line##* }\"; name=\"${name%/}\"; case \"$name\" in epoch_*) LATEST=\"$name\";; esac; done <<ENDOFLIST\n$(mc ls \"s3/$ECH_BOARD_S3_BUCKET/\" 2>/dev/null)\nENDOFLIST\n[ -n \"$LATEST\" ] && mc cp --recursive \"s3/$ECH_BOARD_S3_BUCKET/$LATEST/\" \""@
}

/// The script that copies the latest database snapshot of the archive bucket
/// into the node's database directory.
pub open spec fn snapshot_script(l: PodLayout) -> Seq<char> {
    "mc alias set s3 \"$ECH_BOARD_S3_ENDPOINT\" \""@ + cat_file(l.s3_creds_dir@, l.s3_access_key@)
        + "\" \""@ + cat_file(l.s3_creds_dir@, l.s3_secret_key@) + "\""@ + latest_epoch_scan()
        + l.db_path@ + "/live/\""@
}

/// The archive location, as both fetching containers get it.
pub open spec fn archive_env(endpoint: Seq<char>, bucket: Seq<char>) -> Seq<(Seq<char>, EnvView)> {
    seq![
        ("ECH_BOARD_S3_ENDPOINT"@, EnvView::Value(endpoint)),
        ("ECH_BOARD_S3_BUCKET"@, EnvView::Value(bucket)),
    ]
}

/// The container that fetches the genesis blob.
pub open spec fn genesis_container(endpoint: Seq<char>, bucket: Seq<char>, l: PodLayout) -> ContainerView {
    ContainerView {
        name: "download-genesis"@,
        image: "minio/mc"@,
        command: seq!["/bin/sh"@, "-ceu"@],
        args: seq![genesis_script(endpoint, bucket, l)],
        env: archive_env(endpoint, bucket),
        mounts: seq![("s3-creds"@, l.s3_creds_dir@, true), ("genesis"@, l.genesis_mount_dir@, false)],
        requests: Seq::empty(),
        ports: Seq::empty(),
    }
}

/// The container that fetches the latest database snapshot.
pub open spec fn snapshot_container(endpoint: Seq<char>, bucket: Seq<char>, l: PodLayout) -> ContainerView {
    ContainerView {
        name: "download-db"@,
        image: "minio/mc"@,
        command: seq!["/bin/sh"@, "-ceu"@],
        args: seq![snapshot_script(l)],
        env: archive_env(endpoint, bucket),
        mounts: seq![("s3-creds"@, l.s3_creds_dir@, true), ("data"@, l.pvc_path@, false)],
        requests: Seq::empty(),
        ports: Seq::empty(),
    }
}

/// The node's own container: `sui-node` with its configuration file, the
/// network's protocol overrides, and the archive credentials.
pub open spec fn node_container(i: NodePodInput, l: PodLayout) -> ContainerView {
    ContainerView {
        name: i.component_name@,
        image: i.image@,
        command: seq!["sui-node"@],
        args: seq!["--config-path"@, l.sui_config_dir@ + "/"@ + l.node_config_key@],
        env: seq![
            ("SUI_PROTOCOL_CONFIG_OVERRIDE_ENABLE"@, EnvView::Value("1"@)),
            (
                "SUI_PROTOCOL_CONFIG_OVERRIDE_max_gas_computation_bucket"@,
                EnvView::Value(i.overrides.max_gas_computation_bucket@),
            ),
            (
                "SUI_PROTOCOL_CONFIG_OVERRIDE_base_tx_cost_fixed"@,
                EnvView::Value(i.overrides.base_tx_cost_fixed@),
            ),
            (
                "SUI_PROTOCOL_CONFIG_OVERRIDE_max_num_new_move_object_ids"@,
                EnvView::Value(i.overrides.max_num_new_move_object_ids@),
            ),
            ("AWS_ACCESS_KEY_ID"@, EnvView::SecretKey(i.s3_creds_secret@, l.s3_access_key@)),
            ("AWS_SECRET_ACCESS_KEY"@, EnvView::SecretKey(i.s3_creds_secret@, l.s3_secret_key@)),
        ],
        mounts: seq![
            ("data"@, l.pvc_path@, false),
            ("config"@, l.sui_config_dir@, true),
            ("genesis"@, l.genesis_mount_dir@, true),
            ("s3-creds"@, l.s3_creds_dir@, true),
        ],
        requests: seq![("cpu"@, i.cpu@), ("memory"@, i.memory@)],
        ports: ports_view(i.ports@),
    }
}

fn text(s: &str) -> (r: String)
    ensures
        r@ == s@,
{
    let mut t = String::new();
    push_text(&mut t, s);
    t
}

fn env_value(name: &str, value: &str) -> (r: EnvEntry)
    ensures
        env_view(r) == (name@, EnvView::Value(value@)),
{
    EnvEntry { name: text(name), source: EnvSource::Value(text(value)) }
}

fn env_secret(name: &str, secret: &str, key: &str) -> (r: EnvEntry)
    ensures
        env_view(r) == (name@, EnvView::SecretKey(secret@, key@)),
{
    EnvEntry { name: text(name), source: EnvSource::SecretKey(text(secret), text(key)) }
}

fn mount(volume: &str, path: &str, read_only: bool) -> (r: Mount)
    ensures
        mount_view(r) == (volume@, path@, read_only),
{
    Mount { volume: text(volume), path: text(path), read_only }
}

fn push_cat(s: &mut String, dir: &str, file: &str)
    ensures
        final(s)@ == old(s)@ + cat_file(dir@, file@),
{
    push_text(s, "$(cat ");
    push_text(s, dir);
    push_text(s, "/");
    push_text(s, file);
    push_text(s, ")");
}

fn shell_command() -> (r: Vec<String>)
    ensures
        strs(r@) == seq!["/bin/sh"@, "-ceu"@],
{
    let mut v: Vec<String> = Vec::new();
    v.push(text("/bin/sh"));
    v.push(text("-ceu"));
    assert(strs(v@) =~= seq!["/bin/sh"@, "-ceu"@]);
    v
}

fn archive_env_entries(endpoint: &str, bucket: &str) -> (r: Vec<EnvEntry>)
    ensures
        r@.map_values(|e: EnvEntry| env_view(e)) == archive_env(endpoint@, bucket@),
{
    let mut v: Vec<EnvEntry> = Vec::new();
    v.push(env_value("ECH_BOARD_S3_ENDPOINT", endpoint));
    v.push(env_value("ECH_BOARD_S3_BUCKET", bucket));
    assert(v@.map_values(|e: EnvEntry| env_view(e)) =~= archive_env(endpoint@, bucket@));
    v
}

fn genesis_init(endpoint: &str, bucket: &str, l: &PodLayout) -> (r: ContainerSpec)
    ensures
        container_view(r) == genesis_container(endpoint@, bucket@, *l),
{
    let mut script = text("mc alias set s3 \"");
    push_text(&mut script, endpoint);
    push_text(&mut script, "\" \"");
    push_cat(&mut script, l.s3_creds_dir.as_str(), l.s3_access_key.as_str());
    push_text(&mut script, "\" \"");
    push_cat(&mut script, l.s3_creds_dir.as_str(), l.s3_secret_key.as_str());
    push_text(&mut script, "\" >/dev/null && mc get --quiet \"s3/");
    push_text(&mut script, bucket);
    push_text(&mut script, "/genesis.blob\" \"");
    push_text(&mut script, l.genesis_mount_dir.as_str());
    push_text(&mut script, "/genesis.blob\"");
    assert(script@ =~= genesis_script(endpoint@, bucket@, *l));
    let mut args: Vec<String> = Vec::new();
    args.push(script);
    let mut mounts: Vec<Mount> = Vec::new();
    mounts.push(mount("s3-creds", l.s3_creds_dir.as_str(), true));
    mounts.push(mount("genesis", l.genesis_mount_dir.as_str(), false));
    let r = ContainerSpec {
        name: text("download-genesis"),
        image: text("minio/mc"),
        command: shell_command(),
        args,
        env: archive_env_entries(endpoint, bucket),
        mounts,
        requests: Vec::new(),
        ports: Vec::new(),
    };
    assert(container_view(r) =~= genesis_container(endpoint@, bucket@, *l));
    r
}

fn snapshot_init(endpoint: &str, bucket: &str, l: &PodLayout) -> (r: ContainerSpec)
    ensures
        container_view(r) == snapshot_container(endpoint@, bucket@, *l),
{
    let mut script = text("mc alias set s3 \"$ECH_BOARD_S3_ENDPOINT\" \"");
    push_cat(&mut script, l.s3_creds_dir.as_str(), l.s3_access_key.as_str());
    push_text(&mut script, "\" \"");
    push_cat(&mut script, l.s3_creds_dir.as_str(), l.s3_secret_key.as_str());
    push_text(&mut script, "\"");
    push_text(
        &mut script,
        " >/dev/null; LATEST=\"\"; while IFS= read -r line; do name=\"${line##* }\"; name=\"${name%/}\"; case \"$name\" in epoch_*) LATEST=\"$name\";; esac; done <<ENDOFLIST\n$(mc ls \"s3/$ECH_BOARD_S3_BUCKET/\" 2>/dev/null)\nENDOFLIST\n[ -n \"$LATEST\" ] && mc cp --recursive \"s3/$ECH_BOARD_S3_BUCKET/$LATEST/\" \"",
    );
    push_text(&mut script, l.db_path.as_str());
    push_text(&mut script, "/live/\"");
    assert(script@ =~= snapshot_script(*l));
    let mut args: Vec<String> = Vec::new();
    args.push(script);
    let mut mounts: Vec<Mount> = Vec::new();
    mounts.push(mount("s3-creds", l.s3_creds_dir.as_str(), true));
    mounts.push(mount("data", l.pvc_path.as_str(), false));
    let r = ContainerSpec {
        name: text("download-db"),
        image: text("minio/mc"),
        command: shell_command(),
        args,
        env: archive_env_entries(endpoint, bucket),
        mounts,
        requests: Vec::new(),
        ports: Vec::new(),
    };
    assert(container_view(r) =~= snapshot_container(endpoint@, bucket@, *l));
    r
}

fn node_main(i: NodePodInput, l: &PodLayout) -> (r: ContainerSpec)
    ensures
        container_view(r) == node_container(i, *l),
{
    let ghost iv = i;
    let mut command: Vec<String> = Vec::new();
    command.push(text("sui-node"));
    assert(strs(command@) =~= seq!["sui-node"@]);
    let mut config = text(l.sui_config_dir.as_str());
    push_text(&mut config, "/");
    push_text(&mut config, l.node_config_key.as_str());
    let mut args: Vec<String> = Vec::new();
    args.push(text("--config-path"));
    args.push(config);
    assert(strs(args@) =~= seq!["--config-path"@, l.sui_config_dir@ + "/"@ + l.node_config_key@]);
    let mut env: Vec<EnvEntry> = Vec::new();
    env.push(env_value("SUI_PROTOCOL_CONFIG_OVERRIDE_ENABLE", "1"));
    env.push(
        env_value(
            "SUI_PROTOCOL_CONFIG_OVERRIDE_max_gas_computation_bucket",
            i.overrides.max_gas_computation_bucket.as_str(),
        ),
    );
    env.push(
        env_value("SUI_PROTOCOL_CONFIG_OVERRIDE_base_tx_cost_fixed", i.overrides.base_tx_cost_fixed.as_str()),
    );
    env.push(
        env_value(
            "SUI_PROTOCOL_CONFIG_OVERRIDE_max_num_new_move_object_ids",
            i.overrides.max_num_new_move_object_ids.as_str(),
        ),
    );
    env.push(env_secret("AWS_ACCESS_KEY_ID", i.s3_creds_secret.as_str(), l.s3_access_key.as_str()));
    env.push(env_secret("AWS_SECRET_ACCESS_KEY", i.s3_creds_secret.as_str(), l.s3_secret_key.as_str()));
    let mut mounts: Vec<Mount> = Vec::new();
    mounts.push(mount("data", l.pvc_path.as_str(), false));
    mounts.push(mount("config", l.sui_config_dir.as_str(), true));
    mounts.push(mount("genesis", l.genesis_mount_dir.as_str(), true));
    mounts.push(mount("s3-creds", l.s3_creds_dir.as_str(), true));
    let mut requests: Vec<(String, String)> = Vec::new();
    requests.push((text("cpu"), i.cpu));
    requests.push((text("memory"), i.memory));
    let r = ContainerSpec {
        name: i.component_name,
        image: i.image,
        command,
        args,
        env,
        mounts,
        requests,
        ports: i.ports,
    };
    assert(container_view(r) =~= node_container(iv, *l));
    r
}

/// The volumes of a node's pod: its configuration secret, the archive
/// credentials secret, and an empty directory for the genesis blob.
pub open spec fn node_volumes(i: NodePodInput) -> Seq<(Seq<char>, Option<Seq<char>>)> {
    seq![("config"@, Some(i.config_secret_name@)), ("s3-creds"@, Some(i.s3_creds_secret@)), ("genesis"@, None)]
}

/// The init containers of a node's pod: the genesis fetch, then the snapshot
/// fetch where the node starts from a snapshot.
pub open spec fn init_views(i: NodePodInput, l: PodLayout) -> Seq<ContainerView> {
    if i.enable_db_snapshot_download {
        seq![genesis_container(i.endpoint@, i.bucket@, l), snapshot_container(i.endpoint@, i.bucket@, l)]
    } else {
        seq![genesis_container(i.endpoint@, i.bucket@, l)]
    }
}

/// The pod of a Sui node (validator or fullnode). Its volumes are the node's
/// configuration secret, the archive credentials secret, and an empty
/// directory for the genesis blob; the database lives on the pod's claim.
/// Pods of the cluster's nodes prefer distinct hosts.
pub fn build_node_pod(i: NodePodInput, l: &PodLayout) -> (r: PodPlan)
    ensures
        r.init_containers@.map_values(|c: ContainerSpec| container_view(c)) == init_views(i, *l),
        container_view(r.container) == node_container(i, *l),
        r.volumes@.map_values(|v: VolumeSpec| volume_view(v)) == node_volumes(i),
        r.termination_grace_secs == 30,
        r.fs_group == Some(1000i64),
        r.pull_policy@ == "IfNotPresent"@,
        owner_spread(r.spread),
{
    let ghost iv = i;
    let mut init: Vec<ContainerSpec> = Vec::new();
    init.push(genesis_init(i.endpoint.as_str(), i.bucket.as_str(), l));
    if i.enable_db_snapshot_download {
        init.push(snapshot_init(i.endpoint.as_str(), i.bucket.as_str(), l));
    }
    assert(init@.map_values(|c: ContainerSpec| container_view(c)) =~= init_views(iv, *l));
    let mut volumes: Vec<VolumeSpec> = Vec::new();
    volumes.push(VolumeSpec { name: text("config"), source: VolumeSource::Secret(text(i.config_secret_name.as_str())) });
    volumes.push(VolumeSpec { name: text("s3-creds"), source: VolumeSource::Secret(text(i.s3_creds_secret.as_str())) });
    volumes.push(VolumeSpec { name: text("genesis"), source: VolumeSource::EmptyDir });
    assert(volumes@.map_values(|v: VolumeSpec| volume_view(v)) =~= node_volumes(iv));
    let container = node_main(i, l);
    PodPlan {
        init_containers: init,
        container,
        volumes,
        termination_grace_secs: 30,
        fs_group: Some(1000),
        pull_policy: text("IfNotPresent"),
        spread: spread_by_owner(),
    }
}

/// The ports of a fullnode's container: RPC, metrics, P2P, network and admin.
pub fn fullnode_port_specs(rpc: u64, metrics: u64, p2p: u64, net: u64, admin: u64) -> (r: Vec<PortSpec>)
    ensures
        ports_view(r@) == seq![("rpc"@, rpc), ("metrics"@, metrics), ("p2p"@, p2p), ("net"@, net), ("admin"@, admin)],
{
    let mut v: Vec<PortSpec> = Vec::new();
    v.push(PortSpec { name: text("rpc"), port: rpc });
    v.push(PortSpec { name: text("metrics"), port: metrics });
    v.push(PortSpec { name: text("p2p"), port: p2p });
    v.push(PortSpec { name: text("net"), port: net });
    v.push(PortSpec { name: text("admin"), port: admin });
    assert(ports_view(v@) =~= seq![("rpc"@, rpc), ("metrics"@, metrics), ("p2p"@, p2p), ("net"@, net), ("admin"@, admin)]);
    v
}

/// Where the relay's pod mounts its configuration secret, and the file in it.
pub open spec fn relay_config_dir() -> Seq<char> {
    "/opt/ech-board/config"@
}

/// The relay's own container: the relay reading its configuration file.
pub open spec fn relay_container_view(image: Seq<char>, cpu: Seq<char>, memory: Seq<char>, port: u64) -> ContainerView {
    ContainerView {
        name: "relay"@,
        image,
        command: Seq::empty(),
        args: seq!["--config"@, relay_config_dir() + "/config.json"@],
        env: Seq::empty(),
        mounts: seq![("config"@, relay_config_dir(), true)],
        requests: seq![("cpu"@, cpu), ("memory"@, memory)],
        ports: seq![("relay"@, port)],
    }
}

/// The relay's pod: one container, and its configuration secret as a volume.
pub fn relay_pod(image: String, cpu: String, memory: String, port: u64, config_secret: &str) -> (r: PodPlan)
    ensures
        r.init_containers@.len() == 0,
        container_view(r.container) == relay_container_view(image@, cpu@, memory@, port),
        r.volumes@.map_values(|v: VolumeSpec| volume_view(v)) == seq![("config"@, Some(config_secret@))],
        r.termination_grace_secs == 30,
        r.fs_group is None,
        r.pull_policy@ == "IfNotPresent"@,
        owner_spread(r.spread),
{
    let ghost (iv, cv, mv) = (image@, cpu@, memory@);
    let mut args: Vec<String> = Vec::new();
    args.push(text("--config"));
    let mut file = text("/opt/ech-board/config");
    push_text(&mut file, "/config.json");
    args.push(file);
    let mut mounts: Vec<Mount> = Vec::new();
    mounts.push(mount("config", "/opt/ech-board/config", true));
    let mut requests: Vec<(String, String)> = Vec::new();
    requests.push((text("cpu"), cpu));
    requests.push((text("memory"), memory));
    let mut ports: Vec<PortSpec> = Vec::new();
    ports.push(PortSpec { name: text("relay"), port });
    let container = ContainerSpec {
        name: text("relay"),
        image,
        command: Vec::new(),
        args,
        env: Vec::new(),
        mounts,
        requests,
        ports,
    };
    assert(container_view(container) =~= relay_container_view(iv, cv, mv, port));
    let mut volumes: Vec<VolumeSpec> = Vec::new();
    volumes.push(VolumeSpec { name: text("config"), source: VolumeSource::Secret(text(config_secret)) });
    assert(volumes@.map_values(|v: VolumeSpec| volume_view(v)) =~= seq![("config"@, Some(config_secret@))]);
    PodPlan {
        init_containers: Vec::new(),
        container,
        volumes,
        termination_grace_secs: 30,
        fs_group: None,
        pull_policy: text("IfNotPresent"),
        spread: spread_by_owner(),
    }
}

/// Where an archive worker finds the archive bucket and its credentials.
pub struct ArchiveAccess {
    pub endpoint: String,
    pub region: String,
    pub access_key_id: String,
    pub secret_access_key: String,
}

/// The environment of a worker that reads the archive bucket through the
/// S3 proxy, whose certificate it trusts.
pub open spec fn archive_worker_env(a: ArchiveAccess) -> Seq<(Seq<char>, EnvView)> {
    seq![
        ("AWS_ENDPOINT"@, EnvView::Value(a.endpoint@)),
        ("AWS_DEFAULT_REGION"@, EnvView::Value(a.region@)),
        ("AWS_ACCESS_KEY_ID"@, EnvView::Value(a.access_key_id@)),
        ("AWS_SECRET_ACCESS_KEY"@, EnvView::Value(a.secret_access_key@)),
        ("SSL_CERT_FILE"@, EnvView::Value("/certs/tls.crt"@)),
    ]
}

/// The container of an archive worker (the alternative indexer, the
/// checkpoint blob indexer): its command and arguments, the archive
/// environment, metrics on port 9184, its configuration and the proxy's
/// certificate mounted.
pub open spec fn archive_worker_container(
    name: Seq<char>,
    image: Seq<char>,
    command: Seq<char>,
    cpu: Seq<char>,
    memory: Seq<char>,
    args: Seq<Seq<char>>,
    a: ArchiveAccess,
) -> ContainerView {
    ContainerView {
        name,
        image,
        command: seq![command],
        args,
        env: archive_worker_env(a),
        mounts: seq![("config"@, relay_config_dir(), true), ("s3proxy-ca"@, "/certs"@, true)],
        requests: seq![("cpu"@, cpu), ("memory"@, memory)],
        ports: seq![("metrics"@, 9184u64)],
    }
}

/// The pod of an archive worker, with its configuration secret and the
/// proxy's certificate secret as volumes.
pub fn archive_worker_pod(
    name: &str,
    image: String,
    command: &str,
    cpu: String,
    memory: String,
    args: Vec<String>,
    access: ArchiveAccess,
    config_secret: &str,
) -> (r: PodPlan)
    ensures
        r.init_containers@.len() == 0,
        container_view(r.container) == archive_worker_container(
            name@,
            image@,
            command@,
            cpu@,
            memory@,
            strs(args@),
            access,
        ),
        r.volumes@.map_values(|v: VolumeSpec| volume_view(v)) == seq![
            ("config"@, Some(config_secret@)),
            ("s3proxy-ca"@, Some("s3proxy-ca-secret"@)),
        ],
        r.termination_grace_secs == 30,
        r.fs_group is None,
        r.pull_policy@ == "IfNotPresent"@,
        r.spread is None,
{
    let ghost (iv, cv, mv, av, acc) = (image@, cpu@, memory@, strs(args@), access);
    let mut env: Vec<EnvEntry> = Vec::new();
    env.push(env_value("AWS_ENDPOINT", access.endpoint.as_str()));
    env.push(env_value("AWS_DEFAULT_REGION", access.region.as_str()));
    env.push(env_value("AWS_ACCESS_KEY_ID", access.access_key_id.as_str()));
    env.push(env_value("AWS_SECRET_ACCESS_KEY", access.secret_access_key.as_str()));
    env.push(env_value("SSL_CERT_FILE", "/certs/tls.crt"));
    let mut mounts: Vec<Mount> = Vec::new();
    mounts.push(mount("config", "/opt/ech-board/config", true));
    mounts.push(mount("s3proxy-ca", "/certs", true));
    let mut commands: Vec<String> = Vec::new();
    commands.push(text(command));
    let mut requests: Vec<(String, String)> = Vec::new();
    requests.push((text("cpu"), cpu));
    requests.push((text("memory"), memory));
    let mut ports: Vec<PortSpec> = Vec::new();
    ports.push(PortSpec { name: text("metrics"), port: 9184 });
    let container = ContainerSpec {
        name: text(name),
        image,
        command: commands,
        args,
        env,
        mounts,
        requests,
        ports,
    };
    assert(container_view(container) =~= archive_worker_container(name@, iv, command@, cv, mv, av, acc));
    let mut volumes: Vec<VolumeSpec> = Vec::new();
    volumes.push(VolumeSpec { name: text("config"), source: VolumeSource::Secret(text(config_secret)) });
    volumes.push(VolumeSpec { name: text("s3proxy-ca"), source: VolumeSource::Secret(text("s3proxy-ca-secret")) });
    assert(volumes@.map_values(|v: VolumeSpec| volume_view(v)) =~= seq![
        ("config"@, Some(config_secret@)),
        ("s3proxy-ca"@, Some("s3proxy-ca-secret"@)),
    ]);
    PodPlan {
        init_containers: Vec::new(),
        container,
        volumes,
        termination_grace_secs: 30,
        fs_group: None,
        pull_policy: text("IfNotPresent"),
        spread: None,
    }
}

/// The arguments of the alternative indexer: index from the archive bucket
/// into the database, with its pipeline configuration and metrics address.
pub open spec fn spec_indexer_alt_args(database_url: Seq<char>, bucket: Seq<char>) -> Seq<Seq<char>> {
    seq![
        "indexer"@,
        "--database-url"@,
        database_url,
        "--remote-store-s3"@,
        bucket,
        "--config"@,
        relay_config_dir() + "/indexer.toml"@,
        "--metrics-address"@,
        "0.0.0.0:9184"@,
    ]
}

pub fn indexer_alt_args(database_url: String, bucket: String) -> (r: Vec<String>)
    ensures
        strs(r@) == spec_indexer_alt_args(database_url@, bucket@),
{
    let ghost (d, b) = (database_url@, bucket@);
    let mut v: Vec<String> = Vec::new();
    v.push(text("indexer"));
    v.push(text("--database-url"));
    v.push(database_url);
    v.push(text("--remote-store-s3"));
    v.push(bucket);
    v.push(text("--config"));
    let mut config = text("/opt/ech-board/config");
    push_text(&mut config, "/indexer.toml");
    v.push(config);
    v.push(text("--metrics-address"));
    v.push(text("0.0.0.0:9184"));
    assert(strs(v@) =~= spec_indexer_alt_args(d, b));
    v
}

/// The GraphQL service's container: the GraphQL server with its arguments,
/// logging at `info`, serving on `port`, its configuration mounted.
pub open spec fn graphql_container(image: Seq<char>, cpu: Seq<char>, memory: Seq<char>, args: Seq<Seq<char>>, port: u64) -> ContainerView {
    ContainerView {
        name: "graphql"@,
        image,
        command: seq!["sui-indexer-alt-graphql"@],
        args,
        env: seq![("RUST_LOG"@, EnvView::Value("info"@))],
        mounts: seq![("config"@, relay_config_dir(), true)],
        requests: seq![("cpu"@, cpu), ("memory"@, memory)],
        ports: seq![("graphql"@, port)],
    }
}

/// The GraphQL service's pod, with its configuration secret as a volume.
pub fn graphql_pod(image: String, cpu: String, memory: String, args: Vec<String>, port: u64, config_secret: &str) -> (r: PodPlan)
    ensures
        r.init_containers@.len() == 0,
        container_view(r.container) == graphql_container(image@, cpu@, memory@, strs(args@), port),
        r.volumes@.map_values(|v: VolumeSpec| volume_view(v)) == seq![("config"@, Some(config_secret@))],
        r.termination_grace_secs == 30,
        r.fs_group is None,
        r.pull_policy@ == "IfNotPresent"@,
        r.spread is None,
{
    let ghost (iv, cv, mv, av) = (image@, cpu@, memory@, strs(args@));
    let mut env: Vec<EnvEntry> = Vec::new();
    env.push(env_value("RUST_LOG", "info"));
    let mut mounts: Vec<Mount> = Vec::new();
    mounts.push(mount("config", "/opt/ech-board/config", true));
    let mut commands: Vec<String> = Vec::new();
    commands.push(text("sui-indexer-alt-graphql"));
    let mut requests: Vec<(String, String)> = Vec::new();
    requests.push((text("cpu"), cpu));
    requests.push((text("memory"), memory));
    let mut ports: Vec<PortSpec> = Vec::new();
    ports.push(PortSpec { name: text("graphql"), port });
    let container = ContainerSpec {
        name: text("graphql"),
        image,
        command: commands,
        args,
        env,
        mounts,
        requests,
        ports,
    };
    assert(container_view(container) =~= graphql_container(iv, cv, mv, av, port));
    let mut volumes: Vec<VolumeSpec> = Vec::new();
    volumes.push(VolumeSpec { name: text("config"), source: VolumeSource::Secret(text(config_secret)) });
    assert(volumes@.map_values(|v: VolumeSpec| volume_view(v)) =~= seq![("config"@, Some(config_secret@))]);
    PodPlan {
        init_containers: Vec::new(),
        container,
        volumes,
        termination_grace_secs: 30,
        fs_group: None,
        pull_policy: text("IfNotPresent"),
        spread: None,
    }
}

/// A one-off worker job: one container that runs once (no restart, one
/// retry) and whose finished job is removed after an hour. Mounts and
/// volumes are absent rather than empty.
pub struct JobPlan {
    pub name: String,
    pub image: String,
    pub pull_policy: String,
    pub args: Vec<String>,
    pub mounts: Option<Vec<Mount>>,
    pub volumes: Option<Vec<VolumeSpec>>,
    pub service_account: String,
    pub restart_policy: String,
    pub backoff_limit: i32,
    pub ttl_seconds_after_finished: i32,
}

/// The job of a worker: its container is named after the job.
pub fn worker_job(
    name: String,
    image: String,
    args: Vec<String>,
    mounts: Vec<Mount>,
    volumes: Vec<VolumeSpec>,
    service_account: String,
) -> (r: JobPlan)
    ensures
        r.name == name,
        r.image == image,
        r.pull_policy@ == "IfNotPresent"@,
        r.args == args,
        mounts@.len() == 0 ==> r.mounts is None,
        mounts@.len() > 0 ==> r.mounts == Some(mounts),
        volumes@.len() == 0 ==> r.volumes is None,
        volumes@.len() > 0 ==> r.volumes == Some(volumes),
        r.service_account == service_account,
        r.restart_policy@ == "Never"@,
        r.backoff_limit == 1,
        r.ttl_seconds_after_finished == 3600,
{
    let mounts = if mounts.len() == 0 {
        None
    } else {
        Some(mounts)
    };
    let volumes = if volumes.len() == 0 {
        None
    } else {
        Some(volumes)
    };
    JobPlan {
        name,
        image,
        pull_policy: text("IfNotPresent"),
        args,
        mounts,
        volumes,
        service_account,
        restart_policy: text("Never"),
        backoff_limit: 1,
        ttl_seconds_after_finished: 3600,
    }
}

/// Whether every volume the container mounts is one of `volumes`, or the
/// volume `claim` that the pod's stateful set provides.
pub open spec fn mounts_backed(c: ContainerView, volumes: Seq<(Seq<char>, Option<Seq<char>>)>, claim: Option<Seq<char>>) -> bool {
    forall|k: int|
        0 <= k < c.mounts.len() ==> claim == Some(#[trigger] c.mounts[k].0) || exists|j: int|
            0 <= j < volumes.len() && volumes[j].0 == c.mounts[k].0
}

/// Law: in each pod the operator builds, every volume a container mounts is
/// a volume of the pod; in a node's pod the one exception is the database
/// volume `data`, which the node's stateful set claims.
pub proof fn lemma_pod_mounts_backed(
    i: NodePodInput,
    l: PodLayout,
    image: Seq<char>,
    cpu: Seq<char>,
    memory: Seq<char>,
    port: u64,
    args: Seq<Seq<char>>,
    worker: Seq<char>,
    command: Seq<char>,
    access: ArchiveAccess,
    secret: Seq<char>,
)
    ensures
        forall|k: int|
            0 <= k < init_views(i, l).len() ==> mounts_backed(
                #[trigger] init_views(i, l)[k],
                node_volumes(i),
                Some("data"@),
            ),
        mounts_backed(node_container(i, l), node_volumes(i), Some("data"@)),
        mounts_backed(relay_container_view(image, cpu, memory, port), seq![("config"@, Some(secret))], None),
        mounts_backed(
            archive_worker_container(worker, image, command, cpu, memory, args, access),
            seq![("config"@, Some(secret)), ("s3proxy-ca"@, Some("s3proxy-ca-secret"@))],
            None,
        ),
        mounts_backed(graphql_container(image, cpu, memory, args, port), seq![("config"@, Some(secret))], None),
{
    let vols = node_volumes(i);
    assert(vols[0].0 == "config"@ && vols[1].0 == "s3-creds"@ && vols[2].0 == "genesis"@);
    let g = genesis_container(i.endpoint@, i.bucket@, l);
    assert(g.mounts[0].0 == vols[1].0 && g.mounts[1].0 == vols[2].0);
    let d = snapshot_container(i.endpoint@, i.bucket@, l);
    assert(d.mounts[0].0 == vols[1].0 && d.mounts[1].0 == "data"@);
    let n = node_container(i, l);
    assert(n.mounts[1].0 == vols[0].0 && n.mounts[2].0 == vols[2].0 && n.mounts[3].0 == vols[1].0);
    let rv: Seq<(Seq<char>, Option<Seq<char>>)> = seq![("config"@, Some(secret))];
    assert(relay_container_view(image, cpu, memory, port).mounts[0].0 == rv[0].0);
    assert(graphql_container(image, cpu, memory, args, port).mounts[0].0 == rv[0].0);
    let av: Seq<(Seq<char>, Option<Seq<char>>)> = seq![("config"@, Some(secret)), ("s3proxy-ca"@, Some("s3proxy-ca-secret"@))];
    let a = archive_worker_container(worker, image, command, cpu, memory, args, access);
    assert(a.mounts[0].0 == av[0].0 && a.mounts[1].0 == av[1].0);
}

} // verus!
