[package]
name = "catcher"
version = "0.1.0"
edition = "2021"
publish = false

[dependencies]
tokio = { version = "1", features = ["full"] }
tokio-stream = "0.1"
tokio-util = "0.7"
bytes = "1"
reqwest = { version = "0.12", default-features = false, features = ["rustls-tls", "stream", "socks"] }
reqwest-middleware = "0.4"
reqwest-retry = "0.7"
retry-policies = "0.4"
http = "1"
async-trait = "0.1"
serde = { version = "1", features = ["derive"] }
serde_json = "1"
base64 = "0.22"
sha2 = "0.10"
rustls = { version = "0.23", default-features = false, features = ["ring", "std", "tls12"] }
rustls-pki-types = "1"
webpki-roots = "0.26"
hickory-resolver = "0.25"
hickory-proto = "0.25"
moka = { version = "0.12", features = ["future"] }
parking_lot = "0.12"
proxy_cfg = "*"
rand = "0.8"
rand_distr = "0.4"
thiserror = "2"
