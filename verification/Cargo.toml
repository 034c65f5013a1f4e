[package]
name = "flaresolverr_aggregate"
version = "0.1.0"
edition = "2021"
publish = false

[dependencies]
url = "2"
serde_json = "1"
axum = "0.8"
tokio = { version = "1", features = ["macros", "rt-multi-thread", "net", "signal", "time"] }
reqwest = { version = "0.12", default-features = false, features = ["json"] }
chrono = "0.4"
colored = "*"
tower-http = { version = "0.6", features = ["set-header"] }
async-trait = "0.1"
thiserror = "*"
