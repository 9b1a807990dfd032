use stratum_server::config::{Config, ConfigManager};
use stratum_server::difficulty::{Difficulty, DifficultySettings};
use stratum_server::miner::Miner;
use stratum_server::session_id::SessionID;
use stratum_server::types::ConnectionID;

fn miner_with(config: Config, start: u128) -> Miner {
    let diff_settings = DifficultySettings {
        default: Difficulty::from(config.difficulty.initial_difficulty),
        minimum: Difficulty::from(config.difficulty.minimum_difficulty),
    };
    Miner::new_at(
        ConnectionID::new(),
        uuid::Uuid::new_v4(),
        SessionID::from(1),
        None,
        None,
        ConfigManager::new(config),
        diff_settings,
        start,
    )
}

#[test]
fn test_valid_share() {
    let config = Config::default();
    let mut t: u128 = 1_700_000_000_000;
    let mut miner = miner_with(config, t);

    miner.valid_share_at(t);

    for _ in 0..100 {
        miner.valid_share_at(t);
        t += 50;
    }

    let new_diff = miner.update_difficulty();
    assert!(new_diff.is_some());

    for _ in 0..100 {
        miner.valid_share_at(t);
    }

    let new_diff = miner.update_difficulty();
    assert!(new_diff.is_some());
}

#[test]
fn test_ban() {
    let config = Config::default();
    let mut miner = miner_with(config, 1_700_000_000_000);

    miner.valid_share();

    //Note Check threshold for miner bans is 500.
    for _ in 0..500 {
        miner.stale_share();
    }

    assert!(miner.needs_ban());
}

#[test]
fn test_retarget() {
    let config = Config::default();
    let mut t: u128 = 1_700_000_000_000;
    let mut miner = miner_with(config, t);

    assert_eq!(miner.difficulties().current().as_u64(), 16384);

    miner.valid_share_at(t);

    for _ in 0..100 {
        miner.valid_share_at(t);
        t += 50;
    }

    let new_diff = miner.update_difficulty();
    assert!(new_diff.is_some());

    for _ in 0..100 {
        miner.valid_share_at(t);
    }

    let new_diff = miner.update_difficulty();
    assert!(new_diff.is_some());
}

#[test]
fn stale_shares_half_of_all_lead_to_ban() {
    let mut config = Config::default();
    config.connection.check_threshold = 500;
    config.connection.invalid_percent = 50;
    let mut miner = miner_with(config, 0);
    for i in 0..500u128 {
        miner.stale_share_at(i);
    }
    assert!(miner.needs_ban());
}

#[test]
fn good_miner_is_not_banned() {
    let mut config = Config::default();
    config.connection.check_threshold = 10;
    config.connection.invalid_percent = 50;
    let mut miner = miner_with(config, 0);
    for i in 0..6u128 {
        miner.valid_share_at(i);
    }
    for i in 6..10u128 {
        miner.rejected_share_at(i);
    }
    // 4 bad out of 10 is 40 percent.
    assert!(!miner.needs_ban());
}

#[test]
fn vardiff_doubles_under_fast_shares() {
    let mut config = Config::default();
    config.difficulty.target_time = 10;
    let start: u128 = 10_000_000;
    let mut miner = miner_with(config, start);
    let before = miner.difficulties().current().as_u64();
    let mut t = start;
    for _ in 0..120 {
        t += 50;
        miner.valid_share_at(t);
    }
    assert_eq!(miner.update_difficulty().map(|d| d.as_u64()), Some(before * 2));
    assert_eq!(miner.difficulties().current().as_u64(), before * 2);
    assert_eq!(miner.difficulties().previous().as_u64(), before);
}

#[test]
fn vardiff_halves_under_slow_shares() {
    let mut config = Config::default();
    config.difficulty.target_time = 1;
    config.difficulty.retarget_share_amount = 5;
    let mut miner = miner_with(config, 0);
    let mut t: u128 = 0;
    for _ in 0..5 {
        t += 2000;
        miner.valid_share_at(t);
    }
    assert_eq!(miner.update_difficulty().map(|d| d.as_u64()), Some(8192));
}

#[test]
fn vardiff_leaves_difficulty_within_band() {
    let mut config = Config::default();
    config.difficulty.target_time = 1;
    config.difficulty.retarget_share_amount = 5;
    let mut miner = miner_with(config, 0);
    let mut t: u128 = 0;
    for _ in 0..20 {
        t += 1000;
        miner.valid_share_at(t);
    }
    // An average of exactly one target leaves the difficulty alone.
    assert!(miner.update_difficulty().is_none());
}

#[test]
fn vardiff_is_clamped_to_the_maximum() {
    let mut config = Config::default();
    config.difficulty.initial_difficulty = 1 << 20;
    config.difficulty.maximum_difficulty = (1 << 20) + 100;
    config.difficulty.retarget_share_amount = 5;
    let mut miner = miner_with(config, 0);
    let mut t: u128 = 0;
    for _ in 0..5 {
        t += 10;
        miner.valid_share_at(t);
    }
    // The doubled value is clamped to the maximum and then stored rounded
    // down to a power of two.
    assert_eq!(miner.update_difficulty().map(|d| d.as_u64()), Some(1 << 20));
}
