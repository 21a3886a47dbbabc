//! Decisions, measurements and fund arithmetic of a wallet performance harness.
pub mod address_pool;
pub mod config;
pub mod driver;
pub mod fund_management;
pub mod load;
pub mod metrics;
pub mod orchestrator;
pub mod scenarios;
pub mod signing;
pub mod tari;
pub mod text;
pub mod time;
