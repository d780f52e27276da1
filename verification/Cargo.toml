[package]
name = "edgereplica"
version = "0.1.0"
edition = "2021"
publish = false

[dependencies]
anyhow = "=1.0.104"
argon2 = "=0.5.3"
base64 = "=0.22.1"
blake2 = "=0.10.6"
blake3 = "=1.8.7"
buffa = "=0.9.2"
bytes = { version = "=1.12.1", features = ["serde"] }
clap = { version = "=4.6.7", features = ["derive"] }
connectrpc = { version = "=0.9.1", features = ["client", "client-tls"] }
dirs = "=7.0.0"
futures = "=0.3.34"
getrandom = "=0.2.17"
hex = "=0.4.3"
http = "=1.5.0"
libmacaroon = "=0.3.0"
password-hash = { version = "=0.5.0", features = ["std"] }
rand_core = { version = "=0.6.4", features = ["getrandom"] }
rmp-serde = "=1.3.1"
rusqlite = "=0.32.1"
rustls = "=0.23.46"
rustls-native-certs = "=0.8.5"
serde = { version = "=1.0.229", features = ["derive"] }
serde_json = "=1.0.154"
sha2 = "=0.10.9"
tokio = { version = "=1.54.1", features = ["rt-multi-thread", "macros", "net"] }
tokio-tungstenite = { version = "=0.24.0", features = ["rustls-tls-native-roots"] }
toml = "=0.8.23"
tower = "=0.5.3"
wasm-bindgen = "=0.2.130"
worker = { version = "=0.8.7", features = ["http", "d1"] }
