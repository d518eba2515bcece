[package]
name = "rgbpp_indexer"
version = "0.1.0"
edition = "2021"
publish = false

[dependencies]
anyhow = "1"
ckb-hash = "*"
ckb-jsonrpc-types = "*"
ckb-types = "*"
hex = "0.4"
jsonrpsee = { version = "*", features = ["http-client"] }
molecule = "*"
rayon = "1"
sea-orm = { version = "1", default-features = false, features = ["macros"] }
tokio = { version = "1", features = ["sync"] }
tokio-stream = "0.1"
tracing = "0.1"
