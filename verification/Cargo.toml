[package]
name = "pump"
version = "0.1.0"
edition = "2021"
publish = false

[dependencies]
alloy-network = "=0.9.2"
alloy-primitives = "=0.8.26"
alloy-provider = { version = "=0.9.2", default-features = false, features = ["pubsub", "ws", "reqwest"] }
alloy-pubsub = "=0.9.2"
alloy-rpc-types-eth = "=0.9.2"
alloy-signer-local = "=0.9.2"
alloy-sol-types = "=0.8.26"
alloy-transport = "=0.9.2"
bigdecimal = { version = "=0.4.11", features = ["serde"] }
cargo_metadata = "0.18"
chrono = { version = "0.4", features = ["serde"] }
diesel = { version = "2", features = ["postgres", "r2d2", "numeric", "chrono"] }
dotenv = "0.15"
env_logger = { version = "0.11", default-features = false }
futures-util = "0.3"
log = "0.4"
r2d2 = "0.8"
serde = { version = "=1.0.219", features = ["derive"] }
serde_json = "1"
thiserror = "1"
tokio = { version = "1", features = ["macros", "rt-multi-thread", "net"] }
