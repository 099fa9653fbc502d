use vstd::prelude::*;

use crate::codec::hex_value;
use crate::config::CaptchaConfig;
use crate::invalidate::texts;
use crate::text::{utf8_decode, decimal_chars, int_error_message, int_error_text, parse_u64, push_decimal, push_text, spec_parse_u64};
use core::time::Duration;
use vstd::string::StringSliceAdditionalSpecFns;
use vstd::utf8::{decode_utf8, valid_utf8};

verus! {

/// Errors of the operator that carry no outside error.
#[derive(Debug)]
pub enum OperatorError {
    Config(String),
    Finalizer(String),
    ControllerFatal(String),
}

/// The message an operator error carries.
pub open spec fn operator_message(e: OperatorError) -> Seq<char> {
    match e {
        OperatorError::Config(s) => s@,
        OperatorError::Finalizer(s) => s@,
        OperatorError::ControllerFatal(s) => s@,
    }
}

/// The `Duration` of a whole number of seconds.
pub uninterp spec fn seconds_duration(secs: u64) -> Duration;

/// `Duration::from_secs`: a duration of `secs` whole seconds.
#[verifier::external_body]
fn duration_from_secs(secs: u64) -> (d: Duration)
    ensures
        d == seconds_duration(secs),
{
    Duration::from_secs(secs)
}

/// The operator's own settings (`OPERATOR_` variables).
#[derive(Debug, Clone)]
pub struct OperatorSettings {
    pub health_port: u16,
    pub reconcile_interval_seconds: u64,
    pub error_backoff_seconds: u64,
    pub worker_image: String,
    pub relay_image: String,
    pub move_repo: String,
    pub move_git_ref: String,
    pub move_package_path: String,
}

impl OperatorSettings {
    /// How long the operator waits between reconciliations.
    pub fn reconcile_interval(&self) -> (d: Duration)
        ensures
            d == seconds_duration(self.reconcile_interval_seconds),
    {
        duration_from_secs(self.reconcile_interval_seconds)
    }

    /// How long the operator waits after a failed reconciliation.
    pub fn error_backoff(&self) -> (d: Duration)
        ensures
            d == seconds_duration(self.error_backoff_seconds),
    {
        duration_from_secs(self.error_backoff_seconds)
    }
}

/// A leader lease is usable when its grace period is positive and shorter
/// than the lease itself.
pub open spec fn lease_ok(duration_seconds: u64, grace_seconds: u64) -> bool {
    grace_seconds > 0 && grace_seconds < duration_seconds
}

/// Checks the leader election settings.
pub fn check_lease(duration_seconds: u64, grace_seconds: u64) -> (r: Result<(), OperatorError>)
    ensures
        r is Ok <==> lease_ok(duration_seconds, grace_seconds),
        r matches Err(e) ==> e is Config && operator_message(e)
            == "lease grace must be positive and shorter than lease duration"@,
{
    if grace_seconds == 0 || grace_seconds >= duration_seconds {
        return Err(
            OperatorError::Config(
                "lease grace must be positive and shorter than lease duration".to_string(),
            ),
        );
    }
    Ok(())
}

/// Where a reconciled node of the workflow stands.
#[derive(Debug, Clone, Copy, PartialEq, Eq, Structural)]
pub enum NodeState {
    Ready,
    Pending,
}

/// A workload is ready once as many replicas are ready as it asks for.
pub fn replicas_state(ready: i64, wanted: i64) -> (r: NodeState)
    ensures
        r == (if ready >= wanted {
            NodeState::Ready
        } else {
            NodeState::Pending
        }),
{
    if ready >= wanted {
        NodeState::Ready
    } else {
        NodeState::Pending
    }
}

/// The counters of a worker job's status (absent counters read as zero).
#[derive(Debug, Clone, Copy, PartialEq, Eq, Structural)]
pub struct JobCounts {
    pub failed: i32,
    pub succeeded: i32,
}

/// What to do next about a worker job whose artifact is wanted.
#[derive(Debug, Clone, Copy, PartialEq, Eq, Structural)]
pub enum JobStep {
    /// The artifact is there: the node is ready.
    Done,
    /// No job exists: create it, the node is pending.
    Create,
    /// The job succeeded: look for the artifact once more.
    Recheck,
    /// The job is running: the node is pending.
    Wait,
}

/// `"job {name} failed"`.
pub open spec fn job_failed_text(name: Seq<char>) -> Seq<char> {
    "job "@ + name + " failed"@
}

/// `"job {name} completed but the artifact is still missing"`.
pub open spec fn job_missing_text(name: Seq<char>) -> Seq<char> {
    "job "@ + name + " completed but the artifact is still missing"@
}

/// The next step for a job whose output is an artifact.
pub open spec fn spec_job_step(artifact_ready: bool, job: Option<JobCounts>) -> Option<JobStep> {
    if artifact_ready {
        Some(JobStep::Done)
    } else {
        match job {
            None => Some(JobStep::Create),
            Some(c) => if c.failed > 0 {
                None
            } else if c.succeeded > 0 {
                Some(JobStep::Recheck)
            } else {
                Some(JobStep::Wait)
            },
        }
    }
}

/// Decides on a worker job from whether its artifact is there and what the
/// cluster holds of the job; a failed job is fatal.
pub fn job_step(job_name: &str, artifact_ready: bool, job: Option<JobCounts>) -> (r: Result<
    JobStep,
    OperatorError,
>)
    ensures
        spec_job_step(artifact_ready, job) matches Some(s) ==> r == Ok::<JobStep, OperatorError>(s),
        spec_job_step(artifact_ready, job) is None ==> r is Err && r->Err_0 is ControllerFatal
            && operator_message(r->Err_0) == job_failed_text(job_name@),
{
    if artifact_ready {
        return Ok(JobStep::Done);
    }
    match job {
        None => Ok(JobStep::Create),
        Some(c) => {
            if c.failed > 0 {
                let mut msg = "job ".to_string();
                push_text(&mut msg, job_name);
                push_text(&mut msg, " failed");
                Err(OperatorError::ControllerFatal(msg))
            } else if c.succeeded > 0 {
                Ok(JobStep::Recheck)
            } else {
                Ok(JobStep::Wait)
            }
        },
    }
}

/// After a job succeeded, its artifact must be there; the node stays pending
/// until the next reconciliation sees it.
pub fn job_recheck(job_name: &str, artifact_ready: bool) -> (r: Result<NodeState, OperatorError>)
    ensures
        artifact_ready ==> r == Ok::<NodeState, OperatorError>(NodeState::Pending),
        !artifact_ready ==> r is Err && r->Err_0 is ControllerFatal && operator_message(r->Err_0)
            == job_missing_text(job_name@),
{
    if artifact_ready {
        Ok(NodeState::Pending)
    } else {
        let mut msg = "job ".to_string();
        push_text(&mut msg, job_name);
        push_text(&mut msg, " completed but the artifact is still missing");
        Err(OperatorError::ControllerFatal(msg))
    }
}

/// The number that a run of hexadecimal digit bytes denotes.
pub open spec fn hex_number(b: Seq<u8>) -> nat
    decreases b.len(),
{
    if b.len() == 0 {
        0
    } else {
        hex_number(b.drop_last()) * 16 + match hex_value(b.last()) {
            Some(v) => v,
            None => 0,
        }
    }
}

/// Whether every byte is a hexadecimal digit.
pub open spec fn all_hex(d: Seq<u8>) -> bool {
    forall|i: int| 0 <= i < d.len() ==> (#[trigger] hex_value(d[i])) is Some
}

/// The bytes after an optional leading `+`.
pub open spec fn hex_digits(b: Seq<u8>) -> Seq<u8> {
    if b.len() > 0 && b[0] == 0x2b {
        b.drop_first()
    } else {
        b
    }
}

/// `u32::from_str_radix(_, 16)` on at most eight bytes: an optional `+`, then
/// at least one hexadecimal digit and nothing else.
pub open spec fn spec_hex_u32(b: Seq<u8>) -> Option<u32> {
    let d = hex_digits(b);
    if d.len() > 0 && all_hex(d) {
        Some(hex_number(d) as u32)
    } else {
        None
    }
}

proof fn lemma_hex_number_bound(b: Seq<u8>)
    requires
        forall|i: int| 0 <= i < b.len() ==> (#[trigger] hex_value(b[i])) is Some,
    ensures
        hex_number(b) < vstd::arithmetic::power2::pow2(4 * b.len()),
    decreases b.len(),
{
    vstd::arithmetic::power2::lemma2_to64();
    if b.len() > 0 {
        lemma_hex_number_bound(b.drop_last());
        assert(hex_value(b[b.len() - 1]) is Some);
        vstd::arithmetic::power2::lemma_pow2_adds(4 * (b.len() - 1) as nat, 4);
    }
}

/// The publish job of the forum's Move package, told apart by the commit it
/// publishes (the first eight hexadecimal digits of the git ref).
#[derive(Debug, Clone, Copy, PartialEq, Eq, Structural)]
pub struct MovePublishComponent(pub u32);

/// `"Invalid move_git_ref \"{git_ref}\""`.
pub open spec fn bad_git_ref_text(git_ref: Seq<char>) -> Seq<char> {
    "Invalid move_git_ref \""@ + git_ref + "\""@
}

impl MovePublishComponent {
    /// Reads the component from the git ref of the Move package.
    pub fn new(git_ref: &str) -> (r: Result<Self, OperatorError>)
        requires
            git_ref.spec_bytes().len() >= 8,
            vstd::utf8::is_char_boundary(git_ref.spec_bytes(), 8),
        ensures
            spec_hex_u32(git_ref.spec_bytes().take(8)) matches Some(v) ==> r
                == Ok::<Self, OperatorError>(MovePublishComponent(v)),
            spec_hex_u32(git_ref.spec_bytes().take(8)) is None ==> r is Err && r->Err_0 is Config
                && operator_message(r->Err_0) == bad_git_ref_text(git_ref@),
    {
        let bytes = git_ref.as_bytes();
        let ghost b = bytes@.take(8);
        let start: usize = if bytes[0] == 0x2b {
            1
        } else {
            0
        };
        let ghost d = if b[0] == 0x2b {
            b.drop_first()
        } else {
            b
        };
        assert(d =~= bytes@.subrange(start as int, 8));
        let mut ok = start < 8;
        let mut acc: u64 = 0;
        let mut i: usize = start;
        proof {
            vstd::arithmetic::power2::lemma2_to64();
        }
        while i < 8
            invariant
                bytes@ == git_ref.spec_bytes(),
                bytes@.len() >= 8,
                b == bytes@.take(8),
                start <= i <= 8,
                d =~= bytes@.subrange(start as int, 8),
                ok ==> forall|j: int| 0 <= j < i - start ==> (#[trigger] hex_value(d[j])) is Some,
                ok ==> acc == hex_number(d.take(i - start)),
                ok ==> acc < vstd::arithmetic::power2::pow2(4 * (i - start) as nat),
                !ok ==> !(d.len() > 0 && forall|j: int|
                    0 <= j < d.len() ==> (#[trigger] hex_value(d[j])) is Some),
            decreases 8 - i,
        {
            let c = bytes[i];
            let v: u64 = if 0x30 <= c && c <= 0x39 {
                (c - 0x30) as u64
            } else if 0x61 <= c && c <= 0x66 {
                (c - 0x61 + 10) as u64
            } else if 0x41 <= c && c <= 0x46 {
                (c - 0x41 + 10) as u64
            } else {
                16
            };
            assert(c == d[i - start]);
            if v == 16 {
                ok = false;
            }
            if ok {
                proof {
                    assert(d.take(i - start + 1).drop_last() =~= d.take(i - start));
                    vstd::arithmetic::power2::lemma2_to64();
                    vstd::arithmetic::power2::lemma_pow2_adds(4 * (i - start) as nat, 4);
                    vstd::arithmetic::power2::lemma_pow2_strictly_increases(
                        4 * (i - start + 1) as nat,
                        33,
                    );
                }
                acc = acc * 16 + v;
            }
            i = i + 1;
        }
        if ok {
            proof {
                assert(d.take(d.len() as int) =~= d);
                vstd::arithmetic::power2::lemma2_to64();
                if start == 1 {
                    vstd::arithmetic::power2::lemma_pow2_strictly_increases(28, 32);
                }
                assert(acc < 0x1_0000_0000);
            }
            Ok(MovePublishComponent(acc as u32))
        } else {
            assert(d == hex_digits(b));
            let mut msg = "Invalid move_git_ref \"".to_string();
            push_text(&mut msg, git_ref);
            push_text(&mut msg, "\"");
            Err(OperatorError::Config(msg))
        }
    }
}

/// Runs the genesis worker once the validator and sponsor keys exist.
#[derive(Debug, Clone)]
pub struct GenesisReconciler {
    pub operator: OperatorSettings,
}

impl GenesisReconciler {
    pub fn new(operator: OperatorSettings) -> (r: Self)
        ensures
            r.operator == operator,
    {
        Self { operator }
    }
}

/// Publishes the forum's Move package.
#[derive(Debug, Clone)]
pub struct MovePublishReconciler {
    pub operator: OperatorSettings,
}

impl MovePublishReconciler {
    pub fn new(operator: OperatorSettings) -> (r: Self)
        ensures
            r.operator == operator,
    {
        Self { operator }
    }
}

/// Runs the worker that lists the validators as seed peers.
#[derive(Debug, Clone)]
pub struct SeedPeersReconciler {
    pub operator: OperatorSettings,
}

impl SeedPeersReconciler {
    pub fn new(operator: OperatorSettings) -> (r: Self)
        ensures
            r.operator == operator,
    {
        Self { operator }
    }
}

/// Runs the checkpoint blob service.
#[derive(Debug, Clone)]
pub struct WorkloadCheckpointBlobReconciler {
    pub operator: OperatorSettings,
}

impl WorkloadCheckpointBlobReconciler {
    pub fn new(operator: OperatorSettings) -> (r: Self)
        ensures
            r.operator == operator,
    {
        Self { operator }
    }
}

/// Runs the GraphQL service.
#[derive(Debug, Clone)]
pub struct WorkloadGraphqlReconciler {
    pub operator: OperatorSettings,
}

impl WorkloadGraphqlReconciler {
    pub fn new(operator: OperatorSettings) -> (r: Self)
        ensures
            r.operator == operator,
    {
        Self { operator }
    }
}

/// Runs the indexer.
#[derive(Debug, Clone)]
pub struct WorkloadIndexerAltReconciler {
    pub operator: OperatorSettings,
}

impl WorkloadIndexerAltReconciler {
    pub fn new(operator: OperatorSettings) -> (r: Self)
        ensures
            r.operator == operator,
    {
        Self { operator }
    }
}

/// Runs the relay.
#[derive(Debug, Clone)]
pub struct WorkloadRelayReconciler {
    pub operator: OperatorSettings,
}

impl WorkloadRelayReconciler {
    pub fn new(operator: OperatorSettings) -> (r: Self)
        ensures
            r.operator == operator,
    {
        Self { operator }
    }
}

/// `"0.0.0.0:{port}"`: the relay listens on every interface.
pub open spec fn bind_text(port: u64) -> Seq<char> {
    "0.0.0.0:"@ + decimal_chars(port as nat)
}

/// The address the relay of a network listens on.
pub fn relay_bind(port: u64) -> (r: String)
    ensures
        r@ == bind_text(port),
{
    let mut s = "0.0.0.0:".to_string();
    push_decimal(&mut s, port);
    s
}

/// `"http://{service}:{port}"`.
pub open spec fn submit_url_text(service: Seq<char>, port: u64) -> Seq<char> {
    "http://"@ + service + ":"@ + decimal_chars(port as nat)
}

/// The URL of the fullnode RPC service that the relay submits to.
pub fn rpc_submit_url(service: &str, port: u64) -> (r: String)
    ensures
        r@ == submit_url_text(service@, port),
{
    let mut s = "http://".to_string();
    push_text(&mut s, service);
    push_text(&mut s, ":");
    push_decimal(&mut s, port);
    s
}

/// Reads a gas amount of the network's relay settings; `what` names the
/// setting in the error (`"invalid {what}: {reason}"`).
pub fn parse_gas(what: &str, text: &str) -> (r: Result<u64, OperatorError>)
    ensures
        spec_parse_u64(text@) matches Ok(v) ==> r == Ok::<u64, OperatorError>(v),
        spec_parse_u64(text@) matches Err(k) ==> r is Err && r->Err_0 is ControllerFatal
            && operator_message(r->Err_0) == "invalid "@ + what@ + ": "@ + int_error_text(k),
{
    match parse_u64(text) {
        Ok(v) => Ok(v),
        Err(k) => {
            let mut msg = "invalid ".to_string();
            push_text(&mut msg, what);
            push_text(&mut msg, ": ");
            let reason = int_error_message(k);
            push_text(&mut msg, reason.as_str());
            Err(OperatorError::ControllerFatal(msg))
        },
    }
}

/// `"key '{key}' not found in secret '{name}'"`.
pub open spec fn missing_key_text(name: Seq<char>, key: Seq<char>) -> Seq<char> {
    "key '"@ + key + "' not found in secret '"@ + name + "'"@
}

/// `"invalid UTF-8 in secret '{name}' key '{key}': "`, which the decoder's
/// own message follows.
pub open spec fn bad_utf8_prefix(name: Seq<char>, key: Seq<char>) -> Seq<char> {
    "invalid UTF-8 in secret '"@ + name + "' key '"@ + key + "': "@
}

/// Reads the text under `key` of the secret `name` (`value` is what the
/// secret holds under that key).
pub fn secret_text(name: &str, key: &str, value: Option<&[u8]>) -> (r: Result<String, OperatorError>)
    ensures
        value is None ==> r is Err && r->Err_0 is ControllerFatal && operator_message(r->Err_0)
            == missing_key_text(name@, key@),
        value matches Some(v) ==> (r is Ok <==> valid_utf8(v@)),
        value matches Some(v) ==> (r matches Ok(t) ==> t@ == decode_utf8(v@)),
        value is Some ==> (r matches Err(e) ==> e is ControllerFatal && operator_message(e).take(
            bad_utf8_prefix(name@, key@).len() as int,
        ) == bad_utf8_prefix(name@, key@)),
{
    match value {
        None => {
            let mut msg = "key '".to_string();
            push_text(&mut msg, key);
            push_text(&mut msg, "' not found in secret '");
            push_text(&mut msg, name);
            push_text(&mut msg, "'");
            Err(OperatorError::ControllerFatal(msg))
        },
        Some(v) => match utf8_decode(v) {
            Ok(t) => Ok(t),
            Err(e) => {
                let mut msg = "invalid UTF-8 in secret '".to_string();
                push_text(&mut msg, name);
                push_text(&mut msg, "' key '");
                push_text(&mut msg, key);
                push_text(&mut msg, "': ");
                let ghost prefix = msg@;
                push_text(&mut msg, e.as_str());
                assert(msg@.take(prefix.len() as int) =~= prefix);
                Err(OperatorError::ControllerFatal(msg))
            },
        },
    }
}

/// The arguments of the GraphQL service.
pub open spec fn spec_graphql_args(database_url: Seq<char>, port: u64) -> Seq<Seq<char>> {
    seq![
        "rpc"@,
        "--database-url"@,
        database_url,
        "--rpc-listen-address"@,
        bind_text(port),
        "--indexer-config"@,
        "/opt/ech-board/config/indexer.toml"@,
    ]
}

pub fn graphql_args(database_url: String, port: u64) -> (r: Vec<String>)
    ensures
        texts(r@) == spec_graphql_args(database_url@, port),
{
    let mut v: Vec<String> = Vec::new();
    v.push("rpc".to_string());
    v.push("--database-url".to_string());
    v.push(database_url);
    v.push("--rpc-listen-address".to_string());
    v.push(relay_bind(port));
    v.push("--indexer-config".to_string());
    v.push("/opt/ech-board/config/indexer.toml".to_string());
    assert(texts(v@) =~= spec_graphql_args(database_url@, port));
    v
}

/// How a signed number is written in decimal.
pub open spec fn signed_text(v: int) -> Seq<char> {
    if v < 0 {
        "-"@ + decimal_chars((-v) as nat)
    } else {
        decimal_chars(v as nat)
    }
}

fn signed_string(v: i64) -> (r: String)
    ensures
        r@ == signed_text(v as int),
{
    let mut s = String::new();
    if v < 0 {
        s = "-".to_string();
        let m: u64 = if v == i64::MIN {
            0x8000_0000_0000_0000
        } else {
            (-v) as u64
        };
        push_decimal(&mut s, m);
    } else {
        push_decimal(&mut s, v as u64);
    }
    s
}

/// The arguments of the checkpoint blob indexer: its configuration, the
/// archive bucket, the fullnode RPC, the metrics address and the compression
/// level.
pub open spec fn spec_checkpoint_blob_args(bucket: Seq<char>, rpc_url: Seq<char>, level: i64) -> Seq<Seq<char>> {
    seq![
        "--config"@,
        "/opt/ech-board/config/indexer.toml"@,
        "--s3"@,
        bucket,
        "--rpc-api-url"@,
        rpc_url,
        "--metrics-address"@,
        "0.0.0.0:9184"@,
        "--compression-level"@,
        signed_text(level as int),
    ]
}

pub fn checkpoint_blob_args(bucket: String, rpc_url: String, level: i64) -> (r: Vec<String>)
    ensures
        texts(r@) == spec_checkpoint_blob_args(bucket@, rpc_url@, level),
{
    let mut v: Vec<String> = Vec::new();
    v.push("--config".to_string());
    v.push("/opt/ech-board/config/indexer.toml".to_string());
    v.push("--s3".to_string());
    v.push(bucket);
    v.push("--rpc-api-url".to_string());
    v.push(rpc_url);
    v.push("--metrics-address".to_string());
    v.push("0.0.0.0:9184".to_string());
    v.push("--compression-level".to_string());
    v.push(signed_string(level));
    assert(texts(v@) =~= spec_checkpoint_blob_args(bucket@, rpc_url@, level));
    v
}

/// The relay's configuration file as the operator writes it for a network.
pub struct RelaySettings {
    pub bind: String,
    pub admin_bind: String,
    pub captcha: CaptchaConfig,
    pub submit_url: String,
    pub request_timeout_ms: u64,
    pub private_key_base64: String,
    pub gas_budget: u64,
    pub gas_price: u64,
    pub seaweed_filer_url: String,
    pub seaweed_jwt_signing_key: String,
    pub forum_package_id: String,
    pub forum_registry: String,
}

/// The relay's configuration for a network: it listens on every interface,
/// has no captcha, submits to the network's fullnode RPC service with a five
/// second timeout, and sponsors with the sponsor key at the network's gas
/// settings. Refused when a gas setting is not a number.
pub fn relay_settings(
    port: u64,
    admin_port: u64,
    rpc_service: &str,
    rpc_port: u64,
    private_key_base64: String,
    gas_budget: &str,
    gas_price: &str,
    seaweed_filer_url: String,
    seaweed_jwt_signing_key: String,
    forum_package_id: String,
    forum_registry: String,
) -> (r: Result<RelaySettings, OperatorError>)
    ensures
        spec_parse_u64(gas_budget@) matches Err(k) ==> r is Err && r->Err_0 is ControllerFatal
            && operator_message(r->Err_0) == "invalid "@ + "gas_budget"@ + ": "@ + int_error_text(k),
        spec_parse_u64(gas_budget@) is Ok ==> (spec_parse_u64(gas_price@) matches Err(k) ==> r is Err
            && r->Err_0 is ControllerFatal && operator_message(r->Err_0) == "invalid "@ + "gas_price"@
            + ": "@ + int_error_text(k)),
        spec_parse_u64(gas_budget@) is Ok && spec_parse_u64(gas_price@) is Ok ==> (r matches Ok(c) && {
            &&& c.bind@ == bind_text(port)
            &&& c.admin_bind@ == bind_text(admin_port)
            &&& c.captcha is Disabled
            &&& c.submit_url@ == submit_url_text(rpc_service@, rpc_port)
            &&& c.request_timeout_ms == 5000
            &&& c.private_key_base64 == private_key_base64
            &&& c.gas_budget == spec_parse_u64(gas_budget@)->Ok_0
            &&& c.gas_price == spec_parse_u64(gas_price@)->Ok_0
            &&& c.seaweed_filer_url == seaweed_filer_url
            &&& c.seaweed_jwt_signing_key == seaweed_jwt_signing_key
            &&& c.forum_package_id == forum_package_id
            &&& c.forum_registry == forum_registry
        }),
{
    let budget = match parse_gas("gas_budget", gas_budget) {
        Ok(v) => v,
        Err(e) => {
            return Err(e);
        },
    };
    let price = match parse_gas("gas_price", gas_price) {
        Ok(v) => v,
        Err(e) => {
            return Err(e);
        },
    };
    Ok(RelaySettings {
        bind: relay_bind(port),
        admin_bind: relay_bind(admin_port),
        captcha: CaptchaConfig::Disabled,
        submit_url: rpc_submit_url(rpc_service, rpc_port),
        request_timeout_ms: 5000,
        private_key_base64,
        gas_budget: budget,
        gas_price: price,
        seaweed_filer_url,
        seaweed_jwt_signing_key,
        forum_package_id,
        forum_registry,
    })
}

} // verus!
