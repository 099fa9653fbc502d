use vstd::prelude::*;

verus! {

/// The ways an upstream node can fail to accept a transaction.
#[derive(Debug, Clone, Copy, PartialEq, Eq, Structural)]
pub enum UpstreamFailureKind {
    ClientInit,
    Timeout,
    Rpc,
    ExecutionTransient,
    ExecutionDeterministic,
    ObjectRead,
    Internal,
}

/// A failure is worth retrying unless the execution itself was deterministic.
pub open spec fn retryable_kind(kind: UpstreamFailureKind) -> bool {
    kind != UpstreamFailureKind::ExecutionDeterministic
}

impl UpstreamFailureKind {
    pub fn is_retryable(self) -> (r: bool)
        ensures
            r == retryable_kind(self),
    {
        match self {
            UpstreamFailureKind::ClientInit
            | UpstreamFailureKind::Timeout
            | UpstreamFailureKind::Rpc
            | UpstreamFailureKind::ExecutionTransient
            | UpstreamFailureKind::ObjectRead
            | UpstreamFailureKind::Internal => true,
            UpstreamFailureKind::ExecutionDeterministic => false,
        }
    }
}

/// The name by which a failure kind is written (its variant's name).
pub open spec fn kind_name(kind: UpstreamFailureKind) -> Seq<char> {
    match kind {
        UpstreamFailureKind::ClientInit => "ClientInit"@,
        UpstreamFailureKind::Timeout => "Timeout"@,
        UpstreamFailureKind::Rpc => "Rpc"@,
        UpstreamFailureKind::ExecutionTransient => "ExecutionTransient"@,
        UpstreamFailureKind::ExecutionDeterministic => "ExecutionDeterministic"@,
        UpstreamFailureKind::ObjectRead => "ObjectRead"@,
        UpstreamFailureKind::Internal => "Internal"@,
    }
}

impl UpstreamFailureKind {
    /// The variant's name.
    pub fn name(self) -> (r: &'static str)
        ensures
            r@ == kind_name(self),
    {
        match self {
            UpstreamFailureKind::ClientInit => "ClientInit",
            UpstreamFailureKind::Timeout => "Timeout",
            UpstreamFailureKind::Rpc => "Rpc",
            UpstreamFailureKind::ExecutionTransient => "ExecutionTransient",
            UpstreamFailureKind::ExecutionDeterministic => "ExecutionDeterministic",
            UpstreamFailureKind::ObjectRead => "ObjectRead",
            UpstreamFailureKind::Internal => "Internal",
        }
    }
}

/// How a failure reads: the kind in square brackets, a space, the details.
pub open spec fn failure_text(f: UpstreamFailure) -> Seq<char> {
    "["@ + kind_name(f.kind) + "] "@ + f.details@
}

/// Why every upstream node refused a transaction, with the last node's words.
#[derive(Debug, Clone)]
pub struct UpstreamFailure {
    pub kind: UpstreamFailureKind,
    pub details: String,
}

impl UpstreamFailure {
    pub fn new(kind: UpstreamFailureKind, details: String) -> (r: Self)
        ensures
            r.kind == kind,
            r.details@ == details@,
    {
        Self { kind, details }
    }

    /// The failure as text: `[kind] details`.
    pub fn to_string(&self) -> (r: String)
        ensures
            r@ == failure_text(*self),
    {
        let mut s = "[".to_string();
        s.append(self.kind.name());
        s.append("] ");
        s.append(self.details.as_str());
        s
    }
}

/// Errors of the relay. Where the original error came from an outside
/// library, the variant carries that error's message.
#[derive(Debug)]
pub enum RelayError {
    ConfigEnv(String),
    ConfigInvalid(String),
    CaptchaRejected,
    CaptchaRequest(String),
    CaptchaDecode(String),
    UpstreamAllFailed(UpstreamFailure),
    SponsorConfig(String),
    SponsorBuild(String),
    Internal(String),
    NotFound(String),
    GraphqlRequest(String),
    GraphqlResponse(String),
}

/// The HTTP status with which a relay error is answered.
pub open spec fn spec_status_code(e: RelayError) -> u16 {
    match e {
        RelayError::CaptchaRejected => 401,
        RelayError::UpstreamAllFailed(_) => 502,
        RelayError::CaptchaRequest(_) | RelayError::CaptchaDecode(_) => 502,
        RelayError::SponsorBuild(_) => 400,
        RelayError::NotFound(_) => 404,
        RelayError::GraphqlRequest(_) | RelayError::GraphqlResponse(_) => 502,
        RelayError::ConfigEnv(_) | RelayError::ConfigInvalid(_) => 500,
        RelayError::SponsorConfig(_) | RelayError::Internal(_) => 500,
    }
}

/// An error is retried when every node failed for a reason worth retrying.
pub open spec fn spec_is_retryable_upstream(e: RelayError) -> bool {
    match e {
        RelayError::UpstreamAllFailed(f) => retryable_kind(f.kind),
        _ => false,
    }
}

impl RelayError {
    pub fn is_retryable_upstream(&self) -> (r: bool)
        ensures
            r == spec_is_retryable_upstream(*self),
    {
        match self {
            RelayError::UpstreamAllFailed(failure) => failure.kind.is_retryable(),
            _ => false,
        }
    }

    pub fn status_code(&self) -> (r: u16)
        ensures
            r == spec_status_code(*self),
    {
        match self {
            RelayError::CaptchaRejected => 401,
            RelayError::UpstreamAllFailed(_) => 502,
            RelayError::CaptchaRequest(_) | RelayError::CaptchaDecode(_) => 502,
            RelayError::SponsorBuild(_) => 400,
            RelayError::NotFound(_) => 404,
            RelayError::GraphqlRequest(_) | RelayError::GraphqlResponse(_) => 502,
            RelayError::ConfigEnv(_) | RelayError::ConfigInvalid(_) => 500,
            RelayError::SponsorConfig(_) | RelayError::Internal(_) => 500,
        }
    }
}

/// The message an error of the relay carries, where it carries one.
pub open spec fn error_message(e: RelayError) -> Seq<char> {
    match e {
        RelayError::ConfigEnv(s) => s@,
        RelayError::ConfigInvalid(s) => s@,
        RelayError::CaptchaRequest(s) => s@,
        RelayError::CaptchaDecode(s) => s@,
        RelayError::SponsorConfig(s) => s@,
        RelayError::SponsorBuild(s) => s@,
        RelayError::Internal(s) => s@,
        RelayError::NotFound(s) => s@,
        RelayError::GraphqlRequest(s) => s@,
        RelayError::GraphqlResponse(s) => s@,
        _ => Seq::empty(),
    }
}

/// A request refused as malformed (`SponsorBuild`) with the given message.
pub open spec fn is_build_error(e: RelayError, msg: Seq<char>) -> bool {
    &&& e is SponsorBuild
    &&& error_message(e) == msg
}

/// The relay's refusal of a malformed request, with its message.
pub fn build_error(msg: &str) -> (e: RelayError)
    ensures
        is_build_error(e, msg@),
{
    RelayError::SponsorBuild(msg.to_string())
}

} // verus!
