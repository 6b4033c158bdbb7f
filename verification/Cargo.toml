[package]
name = "turn"
version = "0.1.0"
edition = "2021"
publish = false

[dependencies]
stun = "*"
md-5 = "0.10"
hmac = "0.12"
sha1 = "0.10"
rand = "0.8"
tokio = { version = "1", features = ["net", "sync", "time", "rt", "rt-multi-thread", "macros", "signal"] }
async-trait = "0.1"
log = "0.4"
thiserror = "1"
anyhow = "1"
