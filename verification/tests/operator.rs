use ech_board::operator::{
    check_lease, checkpoint_blob_args, graphql_args, job_recheck, job_step,
    parse_gas, relay_bind, replicas_state, rpc_submit_url, secret_text, GenesisReconciler,
    JobCounts, JobStep, MovePublishComponent, MovePublishReconciler, NodeState,
    OperatorError, OperatorSettings, SeedPeersReconciler, WorkloadCheckpointBlobReconciler,
    WorkloadGraphqlReconciler, WorkloadIndexerAltReconciler, WorkloadRelayReconciler,
};
use ech_board::workflow::{build_graph, WorkflowNode};
use ech_board::config::CaptchaConfig;
use ech_board::operator::relay_settings;
use ech_board::pod::{
    archive_worker_pod, build_node_pod, graphql_pod, indexer_alt_args, relay_pod, worker_job, ArchiveAccess,
    EnvSource, Mount, VolumeSource, VolumeSpec,
};

fn text(e: &OperatorError) -> &str {
    match e {
        OperatorError::Config(s) | OperatorError::Finalizer(s) | OperatorError::ControllerFatal(s) => s,
    }
}

fn settings() -> OperatorSettings {
    OperatorSettings {
        health_port: 8080,
        reconcile_interval_seconds: 30,
        error_backoff_seconds: 5,
        worker_image: "w".into(),
        relay_image: "r".into(),
        move_repo: "repo".into(),
        move_git_ref: "deadbeefcafe".into(),
        move_package_path: "p".into(),
    }
}

#[test]
fn settings_durations() {
    let s = settings();
    assert_eq!(s.reconcile_interval().as_secs(), 30);
    assert_eq!(s.error_backoff().as_secs(), 5);
}

#[test]
fn reconcilers_keep_their_settings() {
    assert_eq!(GenesisReconciler::new(settings()).operator.move_git_ref, "deadbeefcafe");
    assert_eq!(MovePublishReconciler::new(settings()).operator.health_port, 8080);
    assert_eq!(SeedPeersReconciler::new(settings()).operator.relay_image, "r");
    assert_eq!(WorkloadCheckpointBlobReconciler::new(settings()).operator.worker_image, "w");
    assert_eq!(WorkloadGraphqlReconciler::new(settings()).operator.move_repo, "repo");
    assert_eq!(WorkloadIndexerAltReconciler::new(settings()).operator.move_package_path, "p");
    assert_eq!(WorkloadRelayReconciler::new(settings()).operator.error_backoff_seconds, 5);
}

#[test]
fn lease_settings() {
    assert!(check_lease(30, 10).is_ok());
    let msg = "lease grace must be positive and shorter than lease duration";
    assert_eq!(text(&check_lease(30, 0).unwrap_err()), msg);
    assert_eq!(text(&check_lease(30, 30).unwrap_err()), msg);
    assert!(matches!(check_lease(10, 20).unwrap_err(), OperatorError::Config(_)));
}

#[test]
fn replicas_readiness() {
    assert_eq!(replicas_state(1, 1), NodeState::Ready);
    assert_eq!(replicas_state(3, 2), NodeState::Ready);
    assert_eq!(replicas_state(0, 1), NodeState::Pending);
}

#[test]
fn worker_jobs() {
    assert_eq!(job_step("j", true, None).unwrap(), JobStep::Done);
    assert_eq!(job_step("j", false, None).unwrap(), JobStep::Create);
    assert_eq!(
        job_step("j", false, Some(JobCounts { failed: 0, succeeded: 0 })).unwrap(),
        JobStep::Wait
    );
    assert_eq!(
        job_step("j", false, Some(JobCounts { failed: 0, succeeded: 1 })).unwrap(),
        JobStep::Recheck
    );
    let e = job_step("genesis", false, Some(JobCounts { failed: 1, succeeded: 1 })).unwrap_err();
    assert!(matches!(e, OperatorError::ControllerFatal(_)));
    assert_eq!(text(&e), "job genesis failed");
    assert_eq!(job_recheck("genesis", true).unwrap(), NodeState::Pending);
    assert_eq!(
        text(&job_recheck("genesis", false).unwrap_err()),
        "job genesis completed but the artifact is still missing"
    );
}

#[test]
fn move_publish_component_from_git_ref() {
    assert_eq!(MovePublishComponent::new("deadbeefcafe").unwrap(), MovePublishComponent(0xdead_beef));
    assert_eq!(MovePublishComponent::new("0000000A").unwrap(), MovePublishComponent(10));
    assert_eq!(MovePublishComponent::new("+1234567").unwrap(), MovePublishComponent(0x123_4567));
    let e = MovePublishComponent::new("xyz12345").unwrap_err();
    assert!(matches!(e, OperatorError::Config(_)));
    assert_eq!(text(&e), "Invalid move_git_ref \"xyz12345\"");
    assert!(MovePublishComponent::new("-1234567").is_err());
}

#[test]
fn relay_settings_texts() {
    assert_eq!(relay_bind(8080), "0.0.0.0:8080");
    assert_eq!(rpc_submit_url("net-fullnode-rpc", 9000), "http://net-fullnode-rpc:9000");
    assert_eq!(parse_gas("gas_budget", "50000000").unwrap(), 50_000_000);
    assert_eq!(parse_gas("gas_budget", "+7").unwrap(), 7);
    assert_eq!(
        text(&parse_gas("gas_price", "").unwrap_err()),
        "invalid gas_price: cannot parse integer from empty string"
    );
    assert_eq!(
        text(&parse_gas("gas_price", "12a").unwrap_err()),
        "invalid gas_price: invalid digit found in string"
    );
    assert_eq!(
        text(&parse_gas("gas_budget", "99999999999999999999").unwrap_err()),
        "invalid gas_budget: number too large to fit in target type"
    );
}

#[test]
fn secrets_and_arguments() {
    assert_eq!(secret_text("db", "url", Some(b"postgres://x")).unwrap(), "postgres://x");
    assert_eq!(
        text(&secret_text("db", "url", None).unwrap_err()),
        "key 'url' not found in secret 'db'"
    );
    assert!(text(&secret_text("db", "url", Some(&[0xff])).unwrap_err())
        .starts_with("invalid UTF-8 in secret 'db' key 'url': "));
    assert_eq!(
        graphql_args("postgres://x".into(), 8000),
        vec![
            "rpc",
            "--database-url",
            "postgres://x",
            "--rpc-listen-address",
            "0.0.0.0:8000",
            "--indexer-config",
            "/opt/ech-board/config/indexer.toml"
        ]
    );
    let args = checkpoint_blob_args("bucket".into(), "http://rpc:9000".into(), -3);
    assert_eq!(args[3], "bucket");
    assert_eq!(args[5], "http://rpc:9000");
    assert_eq!(args[9], "-3");
    assert_eq!(checkpoint_blob_args("b".into(), "u".into(), 19)[9], "19");
}

#[test]
fn workflow_graph_layout() {
    let g = build_graph(1, 2);
    assert_eq!(g.len(), 15 + 2 + 4);
    assert_eq!(g[0].node, WorkflowNode::Bootstrap);
    assert!(g[0].deps.is_empty());
    assert_eq!(g[4].node, WorkflowNode::FullnodeRpc);
    assert_eq!(
        g[4].deps,
        vec![
            WorkflowNode::WorkloadFullnode(0),
            WorkflowNode::WorkloadFullnode(1),
            WorkflowNode::PruneFullnodes
        ]
    );
    assert_eq!(g[5].node, WorkflowNode::KeyValidator(0));
    assert_eq!(g[6].node, WorkflowNode::WorkloadValidator(0));
    assert_eq!(g[9].node, WorkflowNode::KeyFullnode(1));
    assert_eq!(g[10].node, WorkflowNode::WorkloadFullnode(1));
    assert_eq!(g[12].node, WorkflowNode::Genesis);
    assert_eq!(g[12].deps, vec![WorkflowNode::KeyValidator(0), WorkflowNode::KeySponsor]);
    assert_eq!(g[20].node, WorkflowNode::WorkloadGraphql);
}

#[test]
fn workflow_graph_has_each_node_once_and_no_cycle() {
    let g = build_graph(3, 2);
    for i in 0..g.len() {
        for j in (i + 1)..g.len() {
            assert_ne!(g[i].node, g[j].node);
        }
        for d in &g[i].deps {
            assert!(g.iter().any(|e| e.node == *d), "{d:?} missing");
        }
    }
}

fn layout() -> ech_board::pod::PodLayout {
    ech_board::pod::PodLayout {
        s3_creds_dir: "/s3".into(),
        genesis_mount_dir: "/genesis".into(),
        db_path: "/data/db".into(),
        pvc_path: "/data".into(),
        sui_config_dir: "/config".into(),
        node_config_key: "node.yaml".into(),
        s3_access_key: "access".into(),
        s3_secret_key: "secret".into(),
    }
}

fn pod_input(snapshot: bool) -> ech_board::pod::NodePodInput {
    ech_board::pod::NodePodInput {
        image: "sui:1".into(),
        component_name: "fullnode".into(),
        config_secret_name: "net-fullnode-0".into(),
        s3_creds_secret: "net-s3-creds".into(),
        ports: ech_board::pod::fullnode_port_specs(9000, 9184, 8084, 8080, 1337),
        cpu: "2".into(),
        memory: "8Gi".into(),
        enable_db_snapshot_download: snapshot,
        endpoint: "http://minio".into(),
        bucket: "archive".into(),
        overrides: ech_board::pod::ProtocolOverrides {
            max_gas_computation_bucket: "5000".into(),
            base_tx_cost_fixed: "1".into(),
            max_num_new_move_object_ids: "4096".into(),
        },
    }
}

#[test]
fn node_pod_fetches_genesis_then_runs_node() {
    let pod = build_node_pod(pod_input(false), &layout());
    assert_eq!(pod.init_containers.len(), 1);
    let g = &pod.init_containers[0];
    assert_eq!(g.name, "download-genesis");
    assert_eq!(g.image, "minio/mc");
    assert_eq!(g.command, vec!["/bin/sh".to_string(), "-ceu".to_string()]);
    assert_eq!(
        g.args,
        vec!["mc alias set s3 \"http://minio\" \"$(cat /s3/access)\" \"$(cat /s3/secret)\" >/dev/null && mc get --quiet \"s3/archive/genesis.blob\" \"/genesis/genesis.blob\"".to_string()]
    );
    let mounts: Vec<(String, String, bool)> =
        g.mounts.iter().map(|m| (m.volume.clone(), m.path.clone(), m.read_only)).collect();
    assert_eq!(mounts, vec![("s3-creds".into(), "/s3".into(), true), ("genesis".into(), "/genesis".into(), false)]);

    let c = &pod.container;
    assert_eq!(c.name, "fullnode");
    assert_eq!(c.image, "sui:1");
    assert_eq!(c.command, vec!["sui-node".to_string()]);
    assert_eq!(c.args, vec!["--config-path".to_string(), "/config/node.yaml".to_string()]);
    assert_eq!(c.requests, vec![("cpu".to_string(), "2".to_string()), ("memory".to_string(), "8Gi".to_string())]);
    let ports: Vec<(String, u64)> = c.ports.iter().map(|p| (p.name.clone(), p.port)).collect();
    assert_eq!(
        ports,
        vec![("rpc".into(), 9000), ("metrics".into(), 9184), ("p2p".into(), 8084), ("net".into(), 8080), ("admin".into(), 1337)]
    );
    assert_eq!(c.env.len(), 6);
    assert_eq!(c.env[1].name, "SUI_PROTOCOL_CONFIG_OVERRIDE_max_gas_computation_bucket");
    assert!(matches!(&c.env[1].source, EnvSource::Value(v) if v == "5000"));
    assert!(matches!(&c.env[4].source, EnvSource::SecretKey(s, k) if s == "net-s3-creds" && k == "access"));
    assert!(matches!(&c.env[5].source, EnvSource::SecretKey(s, k) if s == "net-s3-creds" && k == "secret"));

    assert_eq!(pod.volumes.len(), 3);
    assert!(matches!(&pod.volumes[0].source, VolumeSource::Secret(s) if s == "net-fullnode-0"));
    assert!(matches!(&pod.volumes[2].source, VolumeSource::EmptyDir));
    assert_eq!(pod.termination_grace_secs, 30);
    assert_eq!(pod.fs_group, Some(1000));
    let spread = pod.spread.as_ref().unwrap();
    assert_eq!(spread.label, "ech.bz/owner");
    assert_eq!(spread.topology, "kubernetes.io/hostname");
    assert_eq!(spread.weight, 100);
}

#[test]
fn node_pod_with_snapshot_fetches_latest_epoch() {
    let pod = ech_board::pod::build_node_pod(pod_input(true), &layout());
    assert_eq!(pod.init_containers.len(), 2);
    let d = &pod.init_containers[1];
    assert_eq!(d.name, "download-db");
    let script = &d.args[0];
    assert!(script.starts_with("mc alias set s3 \"$ECH_BOARD_S3_ENDPOINT\" \"$(cat /s3/access)\" \"$(cat /s3/secret)\" >/dev/null; LATEST=\"\";"));
    assert!(script.contains("name=\"${line##* }\"; name=\"${name%/}\";"));
    assert!(script.ends_with("mc cp --recursive \"s3/$ECH_BOARD_S3_BUCKET/$LATEST/\" \"/data/db/live/\""));
    assert_eq!(d.mounts[1].volume, "data");
    assert_eq!(d.mounts[1].path, "/data");
}

#[test]
fn relay_settings_for_network() {
    let c = relay_settings(
        8080, 8081, "net-fullnode-rpc", 9000, "key".into(), "50000000", "1000",
        "http://filer".into(), "jwt".into(), "0x1".into(), "0x2".into(),
    )
    .unwrap();
    assert_eq!(c.bind, "0.0.0.0:8080");
    assert_eq!(c.admin_bind, "0.0.0.0:8081");
    assert!(matches!(c.captcha, CaptchaConfig::Disabled));
    assert_eq!(c.submit_url, "http://net-fullnode-rpc:9000");
    assert_eq!(c.request_timeout_ms, 5000);
    assert_eq!(c.gas_budget, 50_000_000);
    assert_eq!(c.gas_price, 1000);
    assert_eq!(c.forum_registry, "0x2");
    let e = relay_settings(1, 2, "s", 3, "k".into(), "x", "1", "".into(), "".into(), "".into(), "".into());
    assert_eq!(text(&e.err().unwrap()), "invalid gas_budget: invalid digit found in string");
    let e = relay_settings(1, 2, "s", 3, "k".into(), "1", "", "".into(), "".into(), "".into(), "".into());
    assert_eq!(text(&e.err().unwrap()), "invalid gas_price: cannot parse integer from empty string");
}

#[test]
fn relay_pod_reads_its_config() {
    let pod = relay_pod("relay:1".into(), "1".into(), "1Gi".into(), 8080, "net-workload-relay");
    assert!(pod.init_containers.is_empty());
    assert_eq!(pod.container.name, "relay");
    assert_eq!(pod.container.args, vec!["--config".to_string(), "/opt/ech-board/config/config.json".to_string()]);
    assert_eq!(pod.container.mounts[0].path, "/opt/ech-board/config");
    assert_eq!(pod.container.ports[0].port, 8080);
    assert!(matches!(&pod.volumes[0].source, VolumeSource::Secret(s) if s == "net-workload-relay"));
    assert_eq!(pod.fs_group, None);
}

#[test]
fn archive_worker_pods() {
    let args = indexer_alt_args("postgres://db".into(), "archive".into());
    assert_eq!(
        args,
        vec![
            "indexer", "--database-url", "postgres://db", "--remote-store-s3", "archive", "--config",
            "/opt/ech-board/config/indexer.toml", "--metrics-address", "0.0.0.0:9184",
        ]
    );
    let access = ArchiveAccess {
        endpoint: "http://minio".into(),
        region: "us-east-1".into(),
        access_key_id: "ak".into(),
        secret_access_key: "sk".into(),
    };
    let pod = archive_worker_pod(
        "indexer-alt", "idx:1".into(), "sui-indexer-alt", "1".into(), "2Gi".into(), args, access, "net-idx",
    );
    let c = &pod.container;
    assert_eq!(c.name, "indexer-alt");
    assert_eq!(c.command, vec!["sui-indexer-alt".to_string()]);
    let env: Vec<String> = c.env.iter().map(|e| e.name.clone()).collect();
    assert_eq!(env, vec!["AWS_ENDPOINT", "AWS_DEFAULT_REGION", "AWS_ACCESS_KEY_ID", "AWS_SECRET_ACCESS_KEY", "SSL_CERT_FILE"]);
    assert!(matches!(&c.env[4].source, EnvSource::Value(v) if v == "/certs/tls.crt"));
    assert_eq!(c.ports[0].port, 9184);
    assert_eq!(c.mounts[1].path, "/certs");
    assert!(matches!(&pod.volumes[1].source, VolumeSource::Secret(s) if s == "s3proxy-ca-secret"));
    assert!(pod.spread.is_none());

    let g = graphql_pod("gql:1".into(), "1".into(), "1Gi".into(), graphql_args("db".into(), 8000), 8000, "net-gql");
    assert_eq!(g.container.command, vec!["sui-indexer-alt-graphql".to_string()]);
    assert_eq!(g.container.args[4], "0.0.0.0:8000");
    assert_eq!(g.container.ports[0].name, "graphql");
    assert!(matches!(&g.container.env[0].source, EnvSource::Value(v) if v == "info"));
}

#[test]
fn worker_jobs_run_once() {
    let job = worker_job("net-genesis".into(), "worker:1".into(), vec!["genesis".into()], vec![], vec![], "worker".into());
    assert_eq!(job.name, "net-genesis");
    assert!(job.mounts.is_none());
    assert!(job.volumes.is_none());
    assert_eq!(job.restart_policy, "Never");
    assert_eq!(job.backoff_limit, 1);
    assert_eq!(job.ttl_seconds_after_finished, 3600);
    let job = worker_job(
        "j".into(),
        "i".into(),
        vec![],
        vec![Mount { volume: "data".into(), path: "/data".into(), read_only: false }],
        vec![VolumeSpec { name: "data".into(), source: VolumeSource::EmptyDir }],
        "sa".into(),
    );
    assert_eq!(job.mounts.unwrap()[0].path, "/data");
    assert_eq!(job.volumes.unwrap().len(), 1);
}

#[test]
fn pod_mounts_have_volumes() {
    let pod = build_node_pod(pod_input(true), &layout());
    let vols: Vec<String> = pod.volumes.iter().map(|v| v.name.clone()).collect();
    for c in pod.init_containers.iter().chain(std::iter::once(&pod.container)) {
        for m in &c.mounts {
            assert!(m.volume == "data" || vols.contains(&m.volume), "{}", m.volume);
        }
    }
    let relay = relay_pod("r".into(), "1".into(), "1".into(), 1, "s");
    let vols: Vec<String> = relay.volumes.iter().map(|v| v.name.clone()).collect();
    assert!(relay.container.mounts.iter().all(|m| vols.contains(&m.volume)));
}
