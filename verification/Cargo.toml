[package]
name = "bobtimus"
version = "0.1.0"
edition = "2021"
publish = false

[dependencies]
anyhow = "=1.0.104"
baru = "*"
bip32 = "=0.5.3"
bip39 = { version = "=3.0.0", features = ["rand"] }
diesel = { version = "=2.3.14", features = ["sqlite"] }
elements = "=0.27.0"
futures = "=0.3.34"
hex = "=0.4.3"
http-api-problem = "=0.60.0"
libsqlite3-sys = { version = "=0.38.2", features = ["bundled"] }
rand = "=0.8.8"
scrypt = "=0.12.0"
serde = { version = "=1.0.229", features = ["derive"] }
serde_json = "=1.0.154"
tokio = { version = "=1.54.1", features = ["full"] }
tracing = "=0.1.44"
warp = "=0.3.7"
