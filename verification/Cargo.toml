[package]
name = "netenum"
version = "0.1.0"
edition = "2021"
publish = false

[dependencies]
ipnet = "2"
x509-parser = "0.16"
serde = { version = "1", features = ["derive"] }
serde_json = "1"
toml = "0.8"
quick-xml = { version = "0.37", features = ["serialize"] }
clap = { version = "4", features = ["derive"] }
tokio = { version = "1", features = ["rt-multi-thread", "macros", "net", "time", "io-util", "process", "sync"] }
futures = "0.3"
async-trait = "0.1"
anyhow = "1"
indicatif = "0.17"
libc = "0.2"
socket2 = "0.5"
pnet = "0.35"
ipnetwork = "0.20"
hickory-client = "0.25"
hickory-resolver = "0.25"
rustls = { version = "0.23", default-features = false, features = ["ring", "std", "tls12"] }
tokio-rustls = { version = "0.26", default-features = false, features = ["ring", "tls12"] }
snmp2 = { version = "*", features = ["tokio"] }
mlua = { version = "0.10", features = ["lua54", "vendored", "async", "send"] }
