[package]
name = "sozu_core"
version = "0.1.0"
edition = "2021"
publish = false

[dependencies]
anyhow = "1.0"
async-io = "1.12"
futures = "0.3"
libc = "0.2"
mio = { version = "0.8", features = ["os-poll", "net"] }
nom = "7.1"
rustls = "0.20"
rusty_ulid = "2.0"
serde = { version = "1.0", features = ["derive"] }
serde_json = "1.0"
smol = "1.3"
toml = "0.5"
tracing = "0.1"
