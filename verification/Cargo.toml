[package]
name = "video_queue"
version = "0.1.0"
edition = "2021"
publish = false

[dependencies]
axum = { version = "0.7", default-features = false }
chrono = { version = "0.4", default-features = false, features = ["clock"] }
futures = "0.3"
sqlx = { version = "0.8", default-features = false, features = ["postgres", "runtime-tokio", "uuid", "chrono"] }
tokio = { version = "1", features = ["fs", "io-util", "time"] }
tracing = "0.1"
uuid = "1"
zip = { version = "0.6", default-features = false, features = ["deflate"] }
