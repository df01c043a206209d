[package]
name = "near-clear-state"
version = "0.1.0"
edition = "2021"
publish = false

[dependencies]
base64 = "=0.22.1"
borsh = "=1.8.1"
color-eyre = "=0.6.5"
inquire = "=0.9.4"
interactive-clap = "=0.3.2"
near-jsonrpc-client = { version = "=0.23.0", features = ["any"] }
near-jsonrpc-primitives = "=0.38.0"
near-primitives = "=0.38.0"
near-sdk = { version = "=5.30.0", features = ["non-contract-usage"] }
near-token = "=0.3.6"
serde = { version = "=1.0.229", features = ["derive"] }
serde_json = "=1.0.154"
shell-words = "=1.1.1"
tokio = { version = "=1.54.1", features = ["rt", "net", "time"] }
