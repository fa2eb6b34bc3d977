use vstd::prelude::*;

verus! {

/// Failures of the gateway, one per cause.
#[derive(PartialEq, Eq, Structural, Clone, Copy, Debug)]
pub enum GatewayErrorKind {
    InvalidRequest,
    ToolNotFound,
    ToolExecutionFailed,
    RetrievalUnavailable,
    BindFailure,
    HealthCheckExhausted,
    AlreadyStarted,
}

/// A gateway failure with a human-readable detail.
pub struct GatewayError {
    pub kind: GatewayErrorKind,
    pub detail: String,
}

} // verus!
