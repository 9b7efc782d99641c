[package]
name = "cadenza"
version = "0.1.0"
edition = "2021"
publish = false

[dependencies]
rtrb = "=0.3.5"
midly = "=0.5.3"
roxmltree = "=0.21.2"
zip = { version = "=9.1.0", default-features = false, features = ["deflate"] }
parking_lot = "=0.12.5"
serde = { version = "=1.0.229", features = ["derive"] }
serde_json = "=1.0.154"
thiserror = "=1.0.69"
dirs-next = "=2.0.0"
rustysynth = "=1.3.8"
