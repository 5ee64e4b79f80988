[package]
name = "discordia"
version = "0.1.0"
edition = "2021"
publish = false

[dependencies]
base64 = "=0.22.1"
bech32 = "=0.11.1"
bip39 = "=2.2.2"
chacha20 = "=0.9.1"
chacha20poly1305 = "=0.10.1"
chrono = { version = "=0.4.45", default-features = false, features = ["std"] }
dirs = "=7.0.0"
hex = "=0.4.3"
hkdf = "=0.12.4"
hmac = "=0.12.1"
igd-next = { version = "=0.18.0", features = ["aio_tokio"] }
iroh-base = { version = "*", default-features = false, features = ["key", "relay"] }
keyring = "3"
local-ip-address = "=0.6.13"
natpmp = "=0.5.0"
rand = "=0.8.8"
reqwest = { version = "*", default-features = false, features = ["json"] }
scrypt = { version = "=0.11.0", default-features = false }
secp256k1 = { version = "=0.29.1", features = ["rand"] }
serde = { version = "=1.0.229", features = ["derive"] }
serde_json = "=1.0.154"
sha2 = "=0.10.9"
sysinfo = "=0.40.1"
tokio = { version = "=1.54.1", features = ["rt-multi-thread", "net", "io-util", "sync", "time", "macros"] }
tokio-tungstenite = "=0.30.0"
futures-util = "=0.3.34"
tracing = "=0.1.44"
tracing-subscriber = { version = "=0.3.23", features = ["env-filter"] }
url = "=2.5.8"
zeroize = "=1.9.1"
