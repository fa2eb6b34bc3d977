use vstd::prelude::*;

use crate::error::{GatewayError, GatewayErrorKind};
use crate::text::{decimal, push_decimal};

verus! {

/// Port the gateway asks for first.
pub const DEFAULT_PORT: u16 = 8080;

/// Liveness requests made before startup is declared failed.
pub const HEALTH_ATTEMPTS: u32 = 5;

/// Pause between two liveness requests, in milliseconds.
pub const HEALTH_RETRY_DELAY_MS: u64 = 200;

/// Pause between spawning the server and the first liveness request, in milliseconds.
pub const SETTLE_DELAY_MS: u64 = 500;

/// Lifecycle of the gateway process.
#[derive(PartialEq, Eq, Structural, Clone, Copy, Debug)]
pub enum ProxyState {
    Stopped,
    Starting,
    Running,
    Stopping,
    Failed,
}

/// What the host does after a liveness request.
#[derive(PartialEq, Eq, Structural, Clone, Copy, Debug)]
pub enum HealthAction {
    /// The gateway answered: startup is done.
    Ready,
    /// Wait this many milliseconds and ask again.
    RetryAfter(u64),
    /// The retry budget is spent: startup failed.
    GiveUp,
}

/// State and action after a liveness request that was the `attempt`-th one
/// (counting from one) and was answered or not.
pub open spec fn health_next(attempt: nat, healthy: bool) -> (ProxyState, HealthAction) {
    if healthy {
        (ProxyState::Running, HealthAction::Ready)
    } else if attempt < HEALTH_ATTEMPTS {
        (ProxyState::Starting, HealthAction::RetryAfter(HEALTH_RETRY_DELAY_MS))
    } else {
        (ProxyState::Failed, HealthAction::GiveUp)
    }
}

/// The gateway process: the port it holds and where it stands in its lifecycle.
/// The host binds, spawns and polls; this type decides.
pub struct AIProxyServer {
    port: u16,
    state: ProxyState,
    attempts: u32,
}

/// Start-up against a port that never answers: the first four liveness requests
/// are each followed by a pause of 200 ms, and the fifth ends start-up as failed.
pub proof fn lemma_unanswered_health_checks()
    ensures
        forall|a: nat| 1 <= a < HEALTH_ATTEMPTS ==> #[trigger] health_next(a, false) == (
            ProxyState::Starting,
            HealthAction::RetryAfter(HEALTH_RETRY_DELAY_MS),
        ),
        health_next(HEALTH_ATTEMPTS as nat, false) == (ProxyState::Failed, HealthAction::GiveUp),
        (HEALTH_ATTEMPTS - 1) * HEALTH_RETRY_DELAY_MS >= 800,
{
}

impl AIProxyServer {
    /// Port held: the one asked for, or the one actually bound.
    pub closed spec fn spec_port(&self) -> u16 {
        self.port
    }

    pub closed spec fn spec_state(&self) -> ProxyState {
        self.state
    }

    /// Liveness requests made in the current start-up.
    pub closed spec fn spec_attempts(&self) -> nat {
        self.attempts as nat
    }

    /// Within a start-up, fewer than the budget of liveness requests have failed.
    pub closed spec fn wf(&self) -> bool {
        self.state == ProxyState::Starting ==> self.attempts < HEALTH_ATTEMPTS
    }

    pub fn new() -> (r: AIProxyServer)
        ensures
            r.wf(),
            r.spec_port() == DEFAULT_PORT,
            r.spec_state() == ProxyState::Stopped,
    {
        AIProxyServer { port: DEFAULT_PORT, state: ProxyState::Stopped, attempts: 0 }
    }

    /// Begins a start-up and returns the port to bind. Fails with
    /// `AlreadyStarted`, changing nothing, unless the gateway is stopped or has
    /// failed.
    pub fn begin_start(&mut self) -> (r: Result<u16, GatewayError>)
        requires
            old(self).wf(),
        ensures
            final(self).wf(),
            (old(self).spec_state() == ProxyState::Stopped || old(self).spec_state() == ProxyState::Failed) ==> {
                &&& r == Ok::<u16, GatewayError>(old(self).spec_port())
                &&& final(self).spec_state() == ProxyState::Starting
                &&& final(self).spec_attempts() == 0
                &&& final(self).spec_port() == old(self).spec_port()
            },
            !(old(self).spec_state() == ProxyState::Stopped || old(self).spec_state() == ProxyState::Failed) ==> {
                &&& r is Err && r->Err_0.kind == GatewayErrorKind::AlreadyStarted
                &&& *final(self) == *old(self)
            },
    {
        if self.state == ProxyState::Stopped || self.state == ProxyState::Failed {
            self.state = ProxyState::Starting;
            self.attempts = 0;
            Ok(self.port)
        } else {
            Err(GatewayError {
                kind: GatewayErrorKind::AlreadyStarted,
                detail: String::from_str("the gateway is already started"),
            })
        }
    }

    /// Records the port the listener actually bound.
    pub fn record_bound_port(&mut self, actual_port: u16)
        ensures
            final(self).spec_port() == actual_port,
            final(self).spec_state() == old(self).spec_state(),
            final(self).spec_attempts() == old(self).spec_attempts(),
            final(self).wf() == old(self).wf(),
    {
        self.port = actual_port;
    }

    /// Records that binding failed: start-up ends as failed.
    pub fn record_bind_failure(&mut self) -> (r: GatewayError)
        ensures
            final(self).wf(),
            r.kind == GatewayErrorKind::BindFailure,
            final(self).spec_state() == ProxyState::Failed,
            final(self).spec_port() == old(self).spec_port(),
    {
        self.state = ProxyState::Failed;
        GatewayError { kind: GatewayErrorKind::BindFailure, detail: String::from_str("failed to bind the listener") }
    }

    /// Records the outcome of one liveness request during start-up and says what
    /// to do next: done on an answer, a pause and another request while the
    /// budget lasts, else failure.
    pub fn record_health(&mut self, healthy: bool) -> (r: HealthAction)
        requires
            old(self).wf(),
            old(self).spec_state() == ProxyState::Starting,
        ensures
            final(self).wf(),
            final(self).spec_attempts() == old(self).spec_attempts() + 1,
            (final(self).spec_state(), r) == health_next(final(self).spec_attempts(), healthy),
            final(self).spec_port() == old(self).spec_port(),
    {
        self.attempts = self.attempts + 1;
        if healthy {
            self.state = ProxyState::Running;
            HealthAction::Ready
        } else if self.attempts < HEALTH_ATTEMPTS {
            HealthAction::RetryAfter(HEALTH_RETRY_DELAY_MS)
        } else {
            self.state = ProxyState::Failed;
            HealthAction::GiveUp
        }
    }

    /// Ends a start-up that could not be verified healthy: the gateway is failed,
    /// and the error to report is returned.
    pub fn abandon_start(&mut self) -> (r: GatewayError)
        ensures
            final(self).wf(),
            r.kind == GatewayErrorKind::HealthCheckExhausted,
            final(self).spec_state() == ProxyState::Failed,
            final(self).spec_port() == old(self).spec_port(),
    {
        self.state = ProxyState::Failed;
        GatewayError {
            kind: GatewayErrorKind::HealthCheckExhausted,
            detail: String::from_str("Failed to start AI Proxy server"),
        }
    }

    /// Begins a stop: the host cancels the serving task, then calls `stop`.
    pub fn begin_stop(&mut self)
        ensures
            final(self).wf(),
            final(self).spec_state() == ProxyState::Stopping,
            final(self).spec_port() == old(self).spec_port(),
    {
        self.state = ProxyState::Stopping;
    }

    /// Marks the gateway stopped.
    pub fn stop(&mut self)
        ensures
            final(self).wf(),
            final(self).spec_state() == ProxyState::Stopped,
            final(self).spec_port() == old(self).spec_port(),
    {
        self.state = ProxyState::Stopped;
    }

    pub fn get_port(&self) -> (r: u16)
        ensures
            r == self.spec_port(),
    {
        self.port
    }

    pub fn status(&self) -> (r: ProxyState)
        ensures
            r == self.spec_state(),
    {
        self.state
    }

    pub fn is_running(&self) -> (r: bool)
        ensures
            r == (self.spec_state() == ProxyState::Running),
    {
        self.state == ProxyState::Running
    }

    /// Base URL of the gateway on the loopback interface.
    pub fn get_base_url(&self) -> (r: String)
        ensures
            r@ == "http://127.0.0.1:"@ + decimal(self.spec_port() as nat),
    {
        let mut url = String::from_str("http://127.0.0.1:");
        push_decimal(&mut url, self.port as u64);
        url
    }
}

} // verus!
