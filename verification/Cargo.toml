[package]
name = "wallet_performance"
version = "0.1.0"
edition = "2021"
publish = false

[dependencies]
anyhow = "=1.0.104"
async-trait = "=0.1.92"
chrono = { version = "=0.4.45", default-features = false, features = ["clock", "std", "serde"] }
clap = { version = "=4.6.7", features = ["derive", "env"] }
csv = "=1.4.0"
env_logger = { version = "=0.11.11", default-features = false }
libc = "=0.2.191"
log = "=0.4.35"
rand = "=0.10.3"
serde = { version = "=1.0.229", features = ["derive"] }
serde_json = "=1.0.154"
sysinfo = { version = "=0.33.1", default-features = false, features = ["system"] }
tari_common = { version = "=5.3.1", default-features = false }
tari_common_types = { version = "=5.3.1", default-features = false }
tari_crypto = "=0.23.4"
tari_transaction_components = { version = "=5.3.1", default-features = false }
tokio = { version = "=1.54.1", features = ["full"] }
tokio-util = "=0.7.20"
uuid = { version = "=1.29.0", features = ["v4"] }
