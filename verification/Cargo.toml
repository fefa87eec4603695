[package]
name = "long_exposure"
version = "0.1.0"
edition = "2021"
publish = false

[dependencies]
image = "*"
rayon = "*"
chrono = "*"
serde = { version = "*", features = ["derive"] }
serde_json = "*"
thiserror = "*"
tokio = { version = "*", features = ["fs", "io-util", "macros", "process", "rt-multi-thread"] }
uuid = { version = "*", features = ["v4"] }
actix-web = "*"
actix-multipart = "*"
actix-cors = "*"
actix-files = "*"
futures-util = "*"
tracing = "*"
tracing-subscriber = "*"
