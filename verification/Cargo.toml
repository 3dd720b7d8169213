[package]
name = "livelogo"
version = "0.1.0"
edition = "2021"
publish = false

[dependencies]
base64 = "0.10"
chrono = { version = "0.4", features = ["serde"] }
dotenv = "0.14"
flate2 = "1"
futures = "0.1"
parking_lot = "0.9"
png = "0.15"
postgres = { version = "0.19", features = ["with-chrono-0_4"] }
reqwest = "0.9"
serde = { version = "1", features = ["derive"] }
serde_json = "1"
snafu = "0.4"
tokio-threadpool = "0.1"
warp = "0.1"
