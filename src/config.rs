use vstd::prelude::*;
use std::sync::Arc;

verus! {

/// Ban table settings.
#[derive(Clone, Copy, Debug)]
pub struct BanManagerConfig {
    pub enabled: bool,
    /// How long a ban lasts when no duration is given, in milliseconds.
    pub default_ban_duration: u64,
}

impl Default for BanManagerConfig {
    fn default() -> (r: BanManagerConfig)
        ensures
            r.enabled == false,
            r.default_ban_duration == 3_600_000,
    {
        BanManagerConfig { enabled: false, default_ban_duration: 3_600_000 }
    }
}

/// Per-connection settings.
#[derive(Clone, Copy, Debug)]
pub struct ConnectionConfig {
    /// Whether each connection starts with a PROXY preface.
    pub proxy_protocol: bool,
    /// Sessions beyond this count are refused; `None` sets no limit.
    pub max_connections: Option<usize>,
    /// Seconds without activity before a session is closed.
    pub active_timeout: u64,
    /// Seconds to wait for the first message of a session.
    pub inital_timeout: u64,
    /// Shares between two ban checks of a worker.
    pub check_threshold: u64,
    /// Share of stale and rejected work, in whole percent, at which a worker
    /// is banned.
    pub invalid_percent: u64,
}

impl Default for ConnectionConfig {
    fn default() -> (r: ConnectionConfig)
        ensures
            r.proxy_protocol == false,
            r.max_connections.is_none(),
            r.active_timeout == 600,
            r.inital_timeout == 15,
            r.check_threshold == 500,
            r.invalid_percent == 50,
    {
        ConnectionConfig {
            proxy_protocol: false,
            max_connections: None,
            active_timeout: 600,
            inital_timeout: 15,
            check_threshold: 500,
            invalid_percent: 50,
        }
    }
}

/// Difficulty and retargeting settings.
#[derive(Clone, Copy, Debug)]
pub struct DifficultyConfig {
    /// Shares after which a retarget may happen before the interval is up.
    pub retarget_share_amount: u64,
    pub initial_difficulty: u64,
    pub var_diff: bool,
    pub minimum_difficulty: u64,
    pub maximum_difficulty: u64,
    /// Seconds between two retargets.
    pub retarget_time: u64,
    /// Seconds wanted between two shares.
    pub target_time: u64,
    pub variance_percent: u64,
}

impl Default for DifficultyConfig {
    fn default() -> (r: DifficultyConfig)
        ensures
            r.retarget_share_amount == 30,
            r.initial_difficulty == 16384,
            r.var_diff == false,
            r.minimum_difficulty == 64,
            r.maximum_difficulty == 0x4000_0000_0000_0000,
            r.retarget_time == 300,
            r.target_time == 10,
            r.variance_percent == 30,
    {
        DifficultyConfig {
            retarget_share_amount: 30,
            initial_difficulty: 16384,
            var_diff: false,
            minimum_difficulty: 64,
            maximum_difficulty: 0x4000_0000_0000_0000,
            retarget_time: 300,
            target_time: 10,
            variance_percent: 30,
        }
    }
}

/// The retarget interval in milliseconds.
pub open spec fn retarget_ms(c: DifficultyConfig) -> int {
    c.retarget_time * 1000
}

/// `a - b`, or zero when `b` is larger.
pub open spec fn sat_sub(a: int, b: int) -> int {
    if a >= b {
        a - b
    } else {
        0
    }
}

impl DifficultyConfig {
    /// The retarget instant a new worker starts from: half an interval
    /// before `now`, so that the first retarget comes after half a cycle.
    pub fn initial_retarget_time(&self, now: u128) -> (r: u128)
        ensures
            r == sat_sub(now as int, retarget_ms(*self) / 2),
    {
        let half: u128 = (self.retarget_time as u128 * 1000) / 2;
        now.saturating_sub(half)
    }
}

/// All tunables of a server.
#[derive(Clone, Copy, Debug)]
pub struct Config {
    pub connection: ConnectionConfig,
    pub difficulty: DifficultyConfig,
    pub bans: BanManagerConfig,
}

impl Default for Config {
    fn default() -> (r: Config)
        ensures
            r.connection.check_threshold == 500,
            r.connection.invalid_percent == 50,
            r.connection.active_timeout == 600,
            r.connection.max_connections.is_none(),
            r.difficulty.initial_difficulty == 16384,
            r.difficulty.minimum_difficulty == 64,
            r.difficulty.maximum_difficulty == 0x4000_0000_0000_0000,
            r.difficulty.retarget_time == 300,
            r.difficulty.target_time == 10,
            r.difficulty.retarget_share_amount == 30,
            r.bans.enabled == false,
            r.bans.default_ban_duration == 3_600_000,
    {
        Config {
            connection: ConnectionConfig::default(),
            difficulty: DifficultyConfig::default(),
            bans: BanManagerConfig::default(),
        }
    }
}

/// A shared, immutable snapshot of the configuration.
#[derive(Clone, Debug)]
pub struct ConfigManager {
    config: Arc<Config>,
}

impl View for ConfigManager {
    type V = Config;

    closed spec fn view(&self) -> Config {
        *self.config
    }
}

impl ConfigManager {
    pub fn new(config: Config) -> (r: ConfigManager)
        ensures
            r@ == config,
    {
        ConfigManager { config: Arc::new(config) }
    }

    /// Another manager holding the same configuration.
    pub fn snapshot(&self) -> (r: ConfigManager)
        ensures
            r@ == self@,
    {
        ConfigManager::new(*self.config)
    }

    pub fn current_config(&self) -> (r: &Config)
        ensures
            *r == self@,
    {
        &self.config
    }

    pub fn proxy_protocol(&self) -> (r: bool)
        ensures
            r == self@.connection.proxy_protocol,
    {
        self.config.connection.proxy_protocol
    }

    /// Default ban duration, in milliseconds.
    pub fn default_ban_duration(&self) -> (r: u64)
        ensures
            r == self@.bans.default_ban_duration,
    {
        self.config.bans.default_ban_duration
    }

    pub fn difficulty_config(&self) -> (r: &DifficultyConfig)
        ensures
            *r == self@.difficulty,
    {
        &self.config.difficulty
    }

    pub fn connection_config(&self) -> (r: &ConnectionConfig)
        ensures
            *r == self@.connection,
    {
        &self.config.connection
    }

    pub fn ban_manager_enabled(&self) -> (r: bool)
        ensures
            r == self@.bans.enabled,
    {
        self.config.bans.enabled
    }
}

} // verus!
