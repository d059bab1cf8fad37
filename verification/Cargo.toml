[package]
name = "kirby_node"
version = "0.1.0"
edition = "2021"
publish = false

[dependencies]
anyhow = "1"
async-trait = "0.1"
bitcoin = "0.32"
chacha20poly1305 = "0.10"
frost-secp256k1-tr = { version = "*", features = ["serde"] }
hex = "0.4"
hkdf = "0.12"
libc = "0.2"
nostr-sdk = { version = "*", features = ["nip44"] }
rand = "0.9"
serde = { version = "1", features = ["derive"] }
serde_json = "1"
sha2 = "0.10"
sled = "0.34"
thiserror = "2"
tokio = { version = "1", features = ["rt", "rt-multi-thread", "sync", "time", "macros", "io-util", "net", "process"] }
tracing = "0.1"
zeroize = "1"
