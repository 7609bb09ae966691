[package]
name = "pg_crypto"
version = "0.1.0"
edition = "2021"
publish = false

[dependencies]
aes = "=0.9.4"
blake2 = "=0.11.0"
blowfish = "=0.10.0"
cbc = { version = "=0.2.1", features = ["alloc", "block-padding"] }
cfb-mode = "=0.9.1"
cipher = { version = "=0.5.2", features = ["alloc", "block-padding"] }
dryoc = "2"
ecb = { version = "=0.2.1", features = ["alloc", "block-padding"] }
hkdf = "=0.13.0"
hmac = "=0.13.0"
md-5 = "=0.11.0"
pwhash = "=1.0.0"
sha1 = "=0.11.0"
sha2 = "=0.11.1"
sha3 = "=0.12.0"
uuid = { version = "=1.29.0", features = ["v4"] }
sequoia-openpgp = { version = "2", default-features = false, features = ["crypto-rust", "allow-experimental-crypto", "allow-variable-time-crypto", "compression-deflate"] }
