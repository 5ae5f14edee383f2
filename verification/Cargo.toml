[package]
name = "genesis_discovery"
version = "0.1.0"
edition = "2021"
publish = false

[dependencies]
openssl = "*"
pnet = "*"
reqwest = { version = "*", default-features = false, features = ["json"] }
serde = { version = "*", features = ["derive"] }
tokio = { version = "*", features = ["rt", "rt-multi-thread", "macros", "time"] }
