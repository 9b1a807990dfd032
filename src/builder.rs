use vstd::prelude::*;
use tokio_util::sync::CancellationToken;
use crate::config::{BanManagerConfig, Config, ConnectionConfig, DifficultyConfig};
use crate::types::ReadyIndicator;

verus! {

/// Everything a server is built from.
pub struct StratumServerBuilder<State> {
    pub server_id: u8,
    pub host: String,
    pub port: u16,
    pub api_host: String,
    pub api_port: u16,
    pub connection_config: ConnectionConfig,
    pub var_diff_config: DifficultyConfig,
    pub ban_config: BanManagerConfig,
    pub state: State,
    pub ready_indicator: ReadyIndicator,
    pub shutdown_message: Option<Vec<u8>>,
    pub cancel_token: Option<CancellationToken>,
}

impl<State> StratumServerBuilder<State> {
    pub fn new(state: State, server_id: u8) -> (r: StratumServerBuilder<State>)
        ensures
            r.server_id == server_id,
            r.host@.len() == 0,
            r.port == 0,
            r.api_port == 8888,
            r.connection_config.check_threshold == 500,
            r.connection_config.max_connections.is_none(),
            !r.connection_config.proxy_protocol,
            r.var_diff_config.initial_difficulty == 16384,
            r.var_diff_config.minimum_difficulty == 64,
            r.var_diff_config.maximum_difficulty == 0x4000_0000_0000_0000,
            r.var_diff_config.retarget_time == 300,
            r.var_diff_config.target_time == 10,
            r.var_diff_config.retarget_share_amount == 30,
            r.shutdown_message.is_none(),
            r.cancel_token.is_none(),
    {
        proof {
            reveal_strlit("0.0.0.0");
        }
        StratumServerBuilder {
            server_id,
            host: String::new(),
            port: 0,
            api_host: String::from_str("0.0.0.0"),
            api_port: 8888,
            connection_config: ConnectionConfig::default(),
            var_diff_config: DifficultyConfig::default(),
            ban_config: BanManagerConfig::default(),
            state,
            ready_indicator: ReadyIndicator::new(false),
            shutdown_message: None,
            cancel_token: None,
        }
    }

    /// The configuration a server built now would run with.
    pub fn config(&self) -> (r: Config)
        ensures
            r.connection == self.connection_config,
            r.difficulty == self.var_diff_config,
            r.bans == self.ban_config,
    {
        Config {
            connection: self.connection_config,
            difficulty: self.var_diff_config,
            bans: self.ban_config,
        }
    }

    pub fn with_host(self, host: &str) -> (r: Self)
        ensures
            r.host@ == host@,
            r.port == self.port,
    {
        let mut b = self;
        b.host = String::from_str(host);
        b
    }

    pub fn with_port(self, port: u16) -> (r: Self)
        ensures
            r.port == port,
            r.host == self.host,
    {
        let mut b = self;
        b.port = port;
        b
    }

    pub fn with_api_host(self, host: &str) -> (r: Self)
        ensures
            r.api_host@ == host@,
    {
        let mut b = self;
        b.api_host = String::from_str(host);
        b
    }

    pub fn with_api_port(self, port: u16) -> (r: Self)
        ensures
            r.api_port == port,
    {
        let mut b = self;
        b.api_port = port;
        b
    }

    pub fn with_max_connections(self, max: usize) -> (r: Self)
        ensures
            r.connection_config == (ConnectionConfig {
                max_connections: Some(max),
                ..self.connection_config
            }),
    {
        let mut b = self;
        b.connection_config.max_connections = Some(max);
        b
    }

    pub fn with_proxy(self, value: bool) -> (r: Self)
        ensures
            r.connection_config == (ConnectionConfig {
                proxy_protocol: value,
                ..self.connection_config
            }),
    {
        let mut b = self;
        b.connection_config.proxy_protocol = value;
        b
    }

    pub fn with_var_diff(self, value: bool) -> (r: Self)
        ensures
            r.var_diff_config == (DifficultyConfig { var_diff: value, ..self.var_diff_config }),
    {
        let mut b = self;
        b.var_diff_config.var_diff = value;
        b
    }

    pub fn with_minimum_difficulty(self, difficulty: u64) -> (r: Self)
        ensures
            r.var_diff_config == (DifficultyConfig {
                minimum_difficulty: difficulty,
                ..self.var_diff_config
            }),
    {
        let mut b = self;
        b.var_diff_config.minimum_difficulty = difficulty;
        b
    }

    pub fn with_maximum_difficulty(self, difficulty: u64) -> (r: Self)
        ensures
            r.var_diff_config == (DifficultyConfig {
                maximum_difficulty: difficulty,
                ..self.var_diff_config
            }),
    {
        let mut b = self;
        b.var_diff_config.maximum_difficulty = difficulty;
        b
    }

    /// Seconds between retargets.
    pub fn with_retarget_time(self, time: u64) -> (r: Self)
        ensures
            r.var_diff_config == (DifficultyConfig { retarget_time: time, ..self.var_diff_config }),
    {
        let mut b = self;
        b.var_diff_config.retarget_time = time;
        b
    }

    /// Seconds wanted between shares.
    pub fn with_target_time(self, time: u64) -> (r: Self)
        ensures
            r.var_diff_config == (DifficultyConfig { target_time: time, ..self.var_diff_config }),
    {
        let mut b = self;
        b.var_diff_config.target_time = time;
        b
    }

    /// Variance, in whole percent.
    pub fn with_variance_percent(self, percent: u64) -> (r: Self)
        ensures
            r.var_diff_config == (DifficultyConfig {
                variance_percent: percent,
                ..self.var_diff_config
            }),
    {
        let mut b = self;
        b.var_diff_config.variance_percent = percent;
        b
    }

    pub fn with_initial_difficulty(self, difficulty: u64) -> (r: Self)
        ensures
            r.var_diff_config == (DifficultyConfig {
                initial_difficulty: difficulty,
                ..self.var_diff_config
            }),
    {
        let mut b = self;
        b.var_diff_config.initial_difficulty = difficulty;
        b
    }

    pub fn with_ready_indicator(self, ready_indicator: ReadyIndicator) -> Self {
        let mut b = self;
        b.ready_indicator = ready_indicator;
        b
    }

    /// Bytes sent to every session when shutdown begins.
    pub fn with_shutdown_message(self, msg: Vec<u8>) -> (r: Self)
        ensures
            r.shutdown_message == Some(msg),
    {
        let mut b = self;
        b.shutdown_message = Some(msg);
        b
    }

    pub fn with_cancel_token(self, token: CancellationToken) -> (r: Self)
        ensures
            r.cancel_token is Some,
    {
        let mut b = self;
        b.cancel_token = Some(token);
        b
    }

    /// Turns the ban table on or off, with its default ban length in
    /// milliseconds.
    pub fn with_bans(self, enabled: bool, default_ban_duration: u64) -> (r: Self)
        ensures
            r.ban_config == (BanManagerConfig { enabled, default_ban_duration }),
    {
        let mut b = self;
        b.ban_config = BanManagerConfig { enabled, default_ban_duration };
        b
    }
}

} // verus!
