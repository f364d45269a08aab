[package]
name = "aligned_sdk"
version = "0.1.0"
edition = "2021"
publish = false

[dependencies]
sha3 = "0.10"
ethers-core = "2"
ethers-signers = "2"
serde = { version = "1", features = ["derive"] }
serde_json = "1"
clap = { version = "4", features = ["derive"] }
tokio = { version = "1", features = ["full"] }
tokio-tungstenite = "*"
futures-util = "0.3"
log = "0.4"
env_logger = "*"
