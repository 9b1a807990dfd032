use stratum_server::ban_manager::{IpAddress, SocketAddress};
use stratum_server::config::{Config, ConfigManager};
use stratum_server::difficulty::Difficulty;
use stratum_server::error::Error;
use stratum_server::miner::ShareKind;
use stratum_server::session::{SendInformation, Session};
use stratum_server::session_id::SessionID;
use stratum_server::types::ConnectionID;
use tokio::sync::mpsc::{unbounded_channel, UnboundedReceiver};
use tokio_util::sync::CancellationToken;

fn session() -> (Session<u32>, UnboundedReceiver<SendInformation>, CancellationToken) {
    let (tx, rx) = unbounded_channel();
    let token = CancellationToken::new();
    let s = Session::new(
        ConnectionID::new(),
        SessionID::from(7),
        SocketAddress { ip: IpAddress::v4(10, 0, 0, 1), port: 4000 },
        tx,
        ConfigManager::new(Config::default()),
        token.child_token(),
        42,
    )
    .unwrap();
    (s, rx, token)
}

#[test]
fn send_queues_json_for_the_writer() {
    let (mut s, mut rx, _t) = session();
    assert!(s.send(String::from("{\"id\":1}")).is_ok());
    match rx.try_recv().unwrap() {
        SendInformation::Json(j) => assert_eq!(j, "{\"id\":1}"),
        other => panic!("unexpected {:?}", other),
    }
    assert!(s.send_raw(vec![1, 2, 3]).is_ok());
    match rx.try_recv().unwrap() {
        SendInformation::Raw(b) => assert_eq!(b, vec![1, 2, 3]),
        other => panic!("unexpected {:?}", other),
    }
}

#[test]
fn send_after_shutdown_fails() {
    let (mut s, _rx, parent) = session();
    s.shutdown();
    assert!(s.is_disconnected());
    assert!(!parent.is_cancelled());
    assert!(matches!(s.send(String::from("{}")), Err(Error::WriterSendFailure)));
    assert!(matches!(s.send_raw(vec![0]), Err(Error::WriterSendFailure)));
}

#[test]
fn idle_session_is_banned_on_send() {
    let (mut s, mut rx, _t) = session();
    s.active_at(1_000);
    // The active timeout is 600 seconds.
    assert!(s.send_at(String::from("{}"), 1_000 + 600_001).is_ok());
    assert!(s.needs_ban());
    assert!(s.is_disconnected());
    assert!(rx.try_recv().is_err());
}

#[test]
fn timeout_follows_handshake() {
    let (mut s, _rx, _t) = session();
    assert_eq!(s.timeout(), 15);
    s.subscribe();
    assert_eq!(s.timeout(), 15);
    s.authorize();
    assert_eq!(s.timeout(), 600);
    s.set_client("btccom-agent/1.0");
    assert!(s.is_agent());
    assert_eq!(s.timeout(), 604_800);
}

#[test]
fn ordinary_client_is_no_agent() {
    let (mut s, _rx, _t) = session();
    s.set_client("cgminer/4.10");
    assert!(!s.is_agent());
    assert!(!s.is_long_timeout());
    assert_eq!(s.get_connection_info().client.as_deref(), Some("cgminer/4.10"));
}

#[test]
fn workers_are_registered_and_retargeted() {
    let (mut s, _rx, _t) = session();
    let sid = SessionID::from(0x0100_0001);
    s.register_worker_at(sid, None, Some(String::from("rig")), uuid::Uuid::new_v4(), 0);
    assert_eq!(s.get_difficulties(sid).unwrap().current().as_u64(), 16384);
    let mut t: u128 = 0;
    for _ in 0..30 {
        t += 50;
        assert!(s.record_share_at(sid, ShareKind::Valid, t));
    }
    assert_eq!(s.update_difficulty(sid).map(|d| d.as_u64()), Some(32768));
    s.set_difficulty(sid, Difficulty::from(1024));
    assert_eq!(s.get_difficulties(sid).unwrap().current().as_u64(), 1024);
    assert!(s.unregister_worker(sid).is_some());
    assert!(s.get_worker_by_session_id(sid).is_none());
    assert!(!s.record_share_at(sid, ShareKind::Valid, t));
}

#[test]
fn minimum_difficulty_respects_global_floor() {
    let (mut s, _rx, _t) = session();
    s.set_minimum_difficulty(Difficulty::from(32));
    s.set_default_difficulty(Difficulty::from(4096));
    let sid = SessionID::from(5);
    s.register_worker_at(sid, None, None, uuid::Uuid::new_v4(), 0);
    assert_eq!(s.get_difficulties(sid).unwrap().current().as_u64(), 4096);
    assert_eq!(*s.state(), 42);
    assert_eq!(s.ip().port, 4000);
}

#[test]
fn shutdown_cancels_token_even_after_disconnect() {
    let (tx, _rx) = unbounded_channel();
    let token = CancellationToken::new();
    let mut s: Session<u32> = Session::new(
        ConnectionID::new(),
        SessionID::from(9),
        SocketAddress { ip: IpAddress::v4(10, 0, 0, 2), port: 4001 },
        tx,
        ConfigManager::new(Config::default()),
        token.clone(),
        0,
    )
    .unwrap();
    s.disconnect();
    assert!(!token.is_cancelled());
    s.shutdown();
    assert!(s.is_disconnected());
    assert!(token.is_cancelled());
}

#[test]
fn send_hands_over_the_message_itself() {
    let (mut s, mut rx, _t) = session();
    s.send_at(String::from("{\"result\":true}"), 0).unwrap();
    match rx.try_recv().unwrap() {
        SendInformation::Json(j) => assert_eq!(j, "{\"result\":true}"),
        other => panic!("unexpected {:?}", other),
    }
}
