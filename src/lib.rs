//! Connection and session core of a Stratum mining server: difficulty
//! values, session identifiers, the variable-difficulty engine, the ban
//! table and the per-session state, each with its contract.

pub mod difficulty;
pub mod session_id;
pub mod var_diff;
pub mod config;
pub mod types;
pub mod utils;
pub mod error;
pub mod stratum;
pub mod id_manager;
pub mod miner;
pub mod miner_list;
pub mod ban_manager;
pub mod session;
pub mod connection;
pub mod router;
pub mod builder;
pub mod handler;
pub mod server;
