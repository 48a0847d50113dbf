[package]
name = "typed_store"
version = "0.1.0"
edition = "2021"
publish = false

[dependencies]
bincode = "1.3.3"
rocksdb = { version = "*", default-features = false }
serde = "1"

[dev-dependencies]
tempfile = "3"
