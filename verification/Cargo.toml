[package]
name = "mint_trader"
version = "0.1.0"
edition = "2021"
publish = false

[dependencies]
anyhow = "1"
async-std = "1"
async-trait = "0.1"
dotenv = "0.15"
dotenv_codegen = "0.15"
futures = "0.3"
kucoin_rs = "*"
serde = { version = "1", features = ["derive"] }
serde_json = "1"
thiserror = "1"
tide = { version = "0.16", default-features = false, features = ["h1-server"] }
tokio = { version = "1", features = ["rt-multi-thread", "macros", "sync", "time"] }
