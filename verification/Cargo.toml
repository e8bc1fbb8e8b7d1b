[package]
name = "tsom_api"
version = "0.1.0"
edition = "2021"
publish = false

[dependencies]
actix-web = "4"
base64 = "=0.22.1"
chacha20poly1305 = "=0.10.1"
deadpool-postgres = "*"
futures = "0.3"
octocrab = "=0.47.1"
rand_core = { version = "=0.6.4", features = ["getrandom"] }
reqwest = { version = "*", default-features = false }
secure-string = "*"
semver = "=1.0.28"
serde = { version = "1", features = ["derive"] }
serde_with = { version = "3", features = ["base64", "macros"] }
tokio = { version = "1", features = ["rt", "sync", "macros"] }
tokio-postgres = "*"
uuid = { version = "1", features = ["v4", "serde"] }
