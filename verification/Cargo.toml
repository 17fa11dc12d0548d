[package]
name = "bpir-cashier"
version = "0.1.0"
edition = "2021"
publish = false

[dependencies]
anyhow = "1"
async-trait = "0.1"
axum = "0.8"
base64 = "0.22"
bip39 = { version = "2", features = ["rand"] }
cdk = { version = "0.17", default-features = false, features = ["wallet"] }
cdk-sqlite = { version = "0.17", default-features = false, features = ["wallet"] }
clap = { version = "4", features = ["derive"] }
ed25519-dalek = "2"
getrandom = "0.2"
hex = "0.4"
hkdf = "0.12"
rand_core = { version = "0.6", features = ["getrandom"] }
serde = { version = "1", features = ["derive"] }
serde_json = "1"
sha2 = "0.10"
thiserror = "2"
tokio = { version = "1", features = ["macros", "rt-multi-thread", "net", "signal", "sync", "time"] }
toml = "*"
tower-http = { version = "*", features = ["cors", "limit"] }
tracing = "0.1"
tracing-subscriber = { version = "0.3", features = ["env-filter"] }
zeroize = "1"

[dev-dependencies]
tempfile = "3"
