[package]
name = "vault"
version = "0.1.0"
edition = "2021"
publish = false

[dependencies]
anyhow = "1"
async-std = "1"
async-trait = "0.1"
bs58 = "0.4"
chrono = "0.4"
comrak = { version = "0.10", default-features = false }
serde = { version = "1", features = ["derive"] }
sodiumoxide = "0.2"
sqlx = { version = "0.5", default-features = false, features = ["sqlite", "runtime-async-std-rustls"] }
stop-token = "0.7"
structopt = "0.3"
tide = "0.16"
webbrowser = "0.5"
