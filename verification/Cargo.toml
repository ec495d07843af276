[package]
name = "node_runtime"
version = "0.1.0"
edition = "2021"
publish = false

[dependencies]
bs58 = "0.5"
byteorder = "=1.5.0"
log = "=0.4.34"
protoc-rust = "=2.28.0"
sha2 = "=0.10.9"

[dev-dependencies]
bincode = "=1.3.3"
