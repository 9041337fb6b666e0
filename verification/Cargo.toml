[package]
name = "ndi_session"
version = "0.1.0"
edition = "2021"
publish = false

[dependencies]
chrono = { version = "0.4", default-features = false, features = ["clock", "std"] }
ffmpeg-next = "*"
flume = "0.11"
futures = "0.3"
itertools = "*"
mdns-sd = "*"
slab = "0.4"
tokio = { version = "1", features = ["macros", "net", "io-util", "rt", "rt-multi-thread", "sync", "time"] }
tracing = "0.1"
