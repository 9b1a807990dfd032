use stratum_server::ban_manager::{BanManager, IpAddress, Key, SocketAddress};
use stratum_server::error::Error;

fn bad_miner() -> Key {
    Key::Socket(SocketAddress { ip: IpAddress::v4(163, 244, 101, 203), port: 3841 })
}

#[test]
fn single_ban_expires() {
    let mut ban_manager = BanManager::new(true, 1);

    ban_manager.add_ban_at(bad_miner(), 0);

    let temp_bans = ban_manager.temp_bans();

    assert_eq!(temp_bans.len(), 1);

    ban_manager.purge_expired_at(10);

    let temp_bans = ban_manager.temp_bans();

    assert_eq!(temp_bans.len(), 0);
}

#[test]
fn ban_extended() {
    let mut ban_manager = BanManager::new(true, 100_000);

    ban_manager.add_ban_at(bad_miner(), 0);

    let temp_bans = ban_manager.temp_bans();

    assert_eq!(temp_bans.len(), 1);
    assert_eq!(temp_bans[0].score, 10);

    ban_manager.add_ban_at(bad_miner(), 0);

    let temp_bans = ban_manager.temp_bans();

    assert_eq!(temp_bans.len(), 1);
    assert_eq!(temp_bans[0].score, 20);

    ban_manager.purge_expired_at(40);

    ban_manager.remove_ban(bad_miner());
    let temp_bans = ban_manager.temp_bans();

    assert_eq!(temp_bans.len(), 0);
}

#[test]
fn graceful_shutdown() {
    let addr = Key::Socket(SocketAddress { ip: IpAddress::v4(163, 244, 101, 203), port: 3821 });
    let mut ban_manager = BanManager::new(true, 100);

    ban_manager.add_ban(addr.clone());

    assert!(ban_manager.check_banned(addr.clone()).is_err());

    // Without a purge the entry stays in the table.
    assert!(ban_manager.check_banned(addr).is_err());
}

#[test]
fn scored_ban_expires_after_purge() {
    let ip = Key::IP(IpAddress::v4(1, 2, 3, 4));
    let mut m = BanManager::new(true, 3_600_000);
    m.add_ban_scored_at(ip.clone(), 10, 1, 1000);
    assert!(matches!(m.check_banned(ip.clone()), Err(Error::ConnectionBanned(_))));
    assert_eq!(m.purge_expired_at(1010), None);
    assert!(m.check_banned(ip).is_ok());
    assert!(m.temp_bans().is_empty());
}

#[test]
fn purge_reports_next_expiration() {
    let mut m = BanManager::new(true, 3_600_000);
    m.add_ban_scored_at(Key::IP(IpAddress::v4(1, 2, 3, 4)), 10, 100, 0);
    m.add_ban_scored_at(Key::IP(IpAddress::v4(1, 2, 3, 5)), 10, 50, 0);
    m.add_ban_scored_at(Key::Account(String::from("bob")), 10, 500, 0);
    assert_eq!(m.purge_expired_at(10), Some(50));
    assert_eq!(m.purge_expired_at(50), Some(100));
    assert_eq!(m.temp_bans().len(), 2);
    assert_eq!(m.purge_expired_at(600), None);
}

#[test]
fn repeated_ban_sums_scores_and_takes_later_end() {
    let k = Key::Worker(String::from("rig1"));
    let mut m = BanManager::new(true, 1000);
    m.add_ban_scored_at(k.clone(), 10, 100, 0);
    m.add_ban_scored_at(k.clone(), 5, 100, 50);
    let bans = m.temp_bans();
    assert_eq!(bans.len(), 1);
    assert_eq!(bans[0].score, 15);
    assert_eq!(m.purge_expired_at(120), Some(150));
    assert!(m.check_banned(k).is_err());
}

#[test]
fn remove_of_absent_ban_is_noop() {
    let mut m = BanManager::new(true, 1000);
    m.add_ban_at(Key::IP(IpAddress::v4(8, 8, 8, 8)), 0);
    assert!(m.remove_ban(Key::IP(IpAddress::v4(9, 9, 9, 9))).is_none());
    assert_eq!(m.temp_bans().len(), 1);
    let removed = m.remove_ban(Key::IP(IpAddress::v4(8, 8, 8, 8))).unwrap();
    assert_eq!(removed.score, 10);
}

#[test]
fn loopback_and_unspecified_are_never_banned() {
    let mut m = BanManager::new(true, 1000);
    m.add_ban_at(Key::IP(IpAddress::v4(127, 0, 0, 1)), 0);
    m.add_ban_at(Key::IP(IpAddress::v4(0, 0, 0, 0)), 0);
    m.add_ban_at(Key::IP(IpAddress::V6(1)), 0);
    m.add_ban_at(Key::Socket(SocketAddress { ip: IpAddress::v4(127, 1, 2, 3), port: 80 }), 0);
    assert!(m.temp_bans().is_empty());
}

#[test]
fn disabled_manager_bans_nothing() {
    let mut m = BanManager::new(false, 1000);
    m.add_ban_at(Key::IP(IpAddress::v4(1, 2, 3, 4)), 0);
    assert!(m.check_banned(Key::IP(IpAddress::v4(1, 2, 3, 4))).is_ok());
}

#[test]
fn ipv4_is_packed_most_significant_first() {
    assert_eq!(IpAddress::v4(1, 2, 3, 4), IpAddress::V4(0x0102_0304));
}
