use shared_handlers::error::GatewayErrorKind;
use shared_handlers::proxy::{AIProxyServer, HealthAction, ProxyState, HEALTH_RETRY_DELAY_MS};
use shared_handlers::SharedHandlers;

#[test]
fn unanswered_health_checks_fail_after_five_attempts() {
    let mut server = AIProxyServer::new();
    assert_eq!(server.begin_start().ok(), Some(8080));
    let mut waited: u64 = 0;
    let mut attempts = 0;
    loop {
        attempts += 1;
        match server.record_health(false) {
            HealthAction::RetryAfter(ms) => waited += ms,
            HealthAction::GiveUp => break,
            HealthAction::Ready => panic!("never answered"),
        }
    }
    assert_eq!(attempts, 5);
    assert_eq!(waited, 4 * HEALTH_RETRY_DELAY_MS);
    assert!(waited >= 800);
    assert_eq!(server.status(), ProxyState::Failed);
    assert_eq!(server.abandon_start().kind, GatewayErrorKind::HealthCheckExhausted);
    assert_eq!(server.status(), ProxyState::Failed);
}

#[test]
fn answered_health_check_runs() {
    let mut server = AIProxyServer::new();
    server.begin_start().ok().unwrap();
    server.record_bound_port(9123);
    assert_eq!(server.record_health(false), HealthAction::RetryAfter(200));
    assert_eq!(server.record_health(true), HealthAction::Ready);
    assert!(server.is_running());
    assert_eq!(server.get_port(), 9123);
    assert_eq!(server.get_base_url(), "http://127.0.0.1:9123");
    assert_eq!(server.begin_start().err().unwrap().kind, GatewayErrorKind::AlreadyStarted);
    server.begin_stop();
    assert_eq!(server.status(), ProxyState::Stopping);
    server.stop();
    assert!(!server.is_running());
    assert_eq!(server.status(), ProxyState::Stopped);
}

#[test]
fn bind_failure_ends_start() {
    let mut server = AIProxyServer::new();
    server.begin_start().ok().unwrap();
    assert_eq!(server.record_bind_failure().kind, GatewayErrorKind::BindFailure);
    assert_eq!(server.status(), ProxyState::Failed);
    assert!(server.begin_start().is_ok());
}

#[test]
fn shared_handlers_constructs() {
    let _h = SharedHandlers::new();
}

#[test]
fn abandoned_start_can_be_retried() {
    let mut server = AIProxyServer::new();
    server.begin_start().ok().unwrap();
    assert_eq!(server.abandon_start().kind, GatewayErrorKind::HealthCheckExhausted);
    assert_eq!(server.status(), ProxyState::Failed);
    assert!(server.begin_start().is_ok());
}
