[package]
name = "broadcast_over_tor"
version = "0.1.0"
edition = "2021"
publish = false

[dependencies]
anyhow = "1"
bitcoin = "0.32"
bitcoin-send-tx-p2p = { version = "=0.3.0", features = ["tor"] }
bitcoincore-rpc = "=0.19.0"
cln-plugin = "=0.1.9"
hex = "0.4"
home = "0.5"
log = "0.4"
serde_json = "1"
tokio = { version = "1", features = ["full"] }
