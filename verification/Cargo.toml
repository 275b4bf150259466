[package]
name = "cosmos_proposal_watcher"
version = "0.1.0"
edition = "2021"
publish = false

[dependencies]
itertools = "0.13"
slack-hook = "0.9"
http = "1"
tokio = { version = "1", features = ["rt-multi-thread", "macros", "time"] }
reqwest = { version = "0.12", default-features = false, features = ["json"] }
chrono = { version = "0.4", default-features = false, features = ["clock"] }
cosmos-sdk-proto = { version = "0.26", features = ["grpc-transport"] }
tonic = { version = "0.12", features = ["tls", "tls-native-roots"] }
rustls = "0.23"
tendermint-rpc = { version = "0.40", default-features = false }
toml = "0.8"
serde = { version = "1", features = ["derive"] }
serde_derive = "1"
serde_json = "1"
humantime-serde = "1"
structopt = "0.3"
env_logger = { version = "0.11", default-features = false }
log = "0.4"
anyhow = "1"
flex-error = "0.4"
