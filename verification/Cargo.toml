[package]
name = "rpcbind-rs"
version = "0.1.0"
edition = "2021"
publish = false

[dependencies]
anyhow = "1"
bytes = "1"
facet = "*"
facet-xdr = "*"
nix = { version = "*", features = ["net"] }
onc-rpc = "*"
parking_lot = "0.12"
thiserror = "*"
tokio = { version = "1", features = ["rt", "net", "io-util", "macros"] }
