[package]
name = "tt_priv_cli"
version = "0.1.0"
edition = "2021"
publish = false

[dependencies]
sha3 = "=0.10.9"
sha2 = "=0.10.9"
tiny-keccak = { version = "=2.0.2", features = ["shake", "kmac", "cshake"] }
curve25519-dalek = "=4.1.3"
chacha20poly1305 = "=0.10.1"
pqcrypto-falcon = "=0.4.1"
pqcrypto-traits = "=0.3.5"
pqcrypto-kyber = "=0.8.1"
x25519-dalek = { version = "=2.0.1", features = ["static_secrets"] }
aes-gcm-siv = "=0.11.1"
rand = "=0.8.8"
clap = { version = "=4.6.7", features = ["derive"] }
hex = "=0.4.3"
serde = { version = "=1.0.229", features = ["derive"] }
bincode = "=1.3.3"
lru = "=0.12.5"
merlin = "3"
