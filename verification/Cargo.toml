[package]
name = "replay_recorder"
version = "0.1.0"
edition = "2021"
publish = false

[dependencies]
base64 = "=0.22.1"
chrono = "=0.4.45"
core-foundation = "=0.10.1"
core-media-rs = "=0.3.5"
core-video-rs = "=0.3.5"
ffmpeg-sidecar = "=2.7.0"
log = "=0.4.34"
notify = "=6.1.1"
objc = "=0.2.7"
peppi = "=2.1.2"
png = "=0.17.16"
screencapturekit = "0.3"
serde = { version = "=1.0.229", features = ["derive"] }
serde_json = "=1.0.154"
ssbm-data = "=0.1.0"
sysinfo = "=0.31.4"
thiserror = "=1.0.69"
tokio = { version = "=1.54.1", features = ["rt", "time"] }
uuid = { version = "=1.29.0", features = ["v4"] }
walkdir = "=2.5.0"
