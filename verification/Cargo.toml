[package]
name = "leaf_collector"
version = "0.1.0"
edition = "2021"
publish = false

[dependencies]
tantivy = "=0.20.2"
postcard = { version = "=1.1.3", default-features = false, features = ["use-std"] }
serde = { version = "=1.0.229", features = ["derive"] }
serde_json = "=1.0.154"
# Not used by the library itself: held back for the index engine, whose
# compression binding does not compile against later releases of it.
zstd-sys = "=2.0.8"
