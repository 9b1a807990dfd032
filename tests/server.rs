use stratum_server::router::Router;
use stratum_server::server::{at_capacity, next_shutdown_step, ShutdownAction};
use stratum_server::stratum::{StratumError, StratumMethod};
use stratum_server::types::{GlobalVars, ReadyIndicator};
use stratum_server::utils::now;

#[test]
fn shutdown_backs_off_exponentially() {
    let waits: Vec<ShutdownAction> = (0..7).map(|a| next_shutdown_step(10, a)).collect();
    assert_eq!(
        waits,
        vec![
            ShutdownAction::Wait(1),
            ShutdownAction::Wait(2),
            ShutdownAction::Wait(4),
            ShutdownAction::Wait(8),
            ShutdownAction::Wait(16),
            ShutdownAction::Wait(32),
            ShutdownAction::Wait(64),
        ]
    );
    assert_eq!(next_shutdown_step(10, 7), ShutdownAction::ForceShutdown);
    assert_eq!(next_shutdown_step(0, 3), ShutdownAction::Done);
}

#[test]
fn capacity_only_with_a_cap() {
    assert!(!at_capacity(1_000_000, None));
    assert!(!at_capacity(9, Some(10)));
    assert!(at_capacity(10, Some(10)));
}

#[test]
fn router_finds_latest_handler() {
    let mut r: Router<u32> = Router::new();
    assert!(r.get("auth").is_none());
    r.add(String::from("auth"), 1);
    r.add(String::from("submit"), 2);
    assert_eq!(r.get("auth"), Some(&1));
    r.add(String::from("auth"), 3);
    assert_eq!(r.get("auth"), Some(&3));
    assert!(r.get("mining.notify").is_none());
    assert_eq!(r.len(), 3);
}

#[test]
fn stratum_codes() {
    assert_eq!(StratumError::StaleShare.get_error_code(), 21);
    assert_eq!(StratumError::InvalidExtraNonce.get_error_code(), 30);
    assert_eq!(StratumError::Unknown(99, String::from("x")).get_error_code(), 99);
    assert!(matches!(StratumError::from_code(24, String::new()), StratumError::Unauthorized));
    assert!(StratumMethod::ClassicSubmit.is_classic());
    assert!(!StratumMethod::Submit.is_classic());
}

#[test]
fn ready_indicator_is_shared() {
    let a = ReadyIndicator::new(false);
    let b = a.create_new();
    a.ready();
    assert!(b.status());
    b.not_ready();
    assert!(!a.status());
    assert_eq!(GlobalVars::new(3).server_id, 3);
    assert!(now() > 1_600_000_000_000);
}
