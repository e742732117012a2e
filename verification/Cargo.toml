[package]
name = "clip_pipeline"
version = "0.1.0"
edition = "2021"
publish = false

[dependencies]
anyhow = "=1.0.104"
dotenvy = "=0.15.7"
ffmpeg-cli = "=0.1.0"
futures-util = "=0.3.34"
log = "=0.4.34"
reqwest = { version = "=0.12.28", default-features = false, features = ["rustls-tls"] }
serde = { version = "=1.0.229", features = ["derive"] }
serde_json = "=1.0.151"
tokio = { version = "=1.53.2", features = ["full"] }
tokio-stream = "=0.1.19"
uuid = { version = "=1.27.0", features = ["v4"] }
warp = { version = "=0.4.3", features = ["server", "websocket"] }
