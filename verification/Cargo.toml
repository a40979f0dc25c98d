[package]
name = "robinhood_lp_bot"
version = "0.1.0"
edition = "2021"
publish = false

[dependencies]
anyhow = "1"
dptree = "0.3"
env_logger = { version = "0.10", default-features = false }
ethers = { version = "=2.0.14", default-features = false, features = ["abigen"] }
futures = { version = "0.3", default-features = false, features = ["std", "async-await"] }
log = "0.4"
reqwest = { version = "0.11", default-features = false, features = ["json", "rustls-tls"] }
serde = { version = "1", features = ["derive"] }
serde_json = "1"
takecell = "=0.1.1"
teloxide = { version = "=0.12.2", default-features = false, features = ["ctrlc_handler"] }
tokio = { version = "1", default-features = false, features = ["macros", "rt-multi-thread", "sync", "time"] }
toml = { version = "0.8", default-features = false, features = ["parse"] }
