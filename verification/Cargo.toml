[package]
name = "nuwax_upload"
version = "0.1.0"
edition = "2021"
publish = false

[dependencies]
chrono = "=0.4.45"
clap = { version = "=4.6.7", features = ["derive", "env"] }
futures = "=0.3.34"
indicatif = "=0.17.11"
mime_guess2 = "=2.3.1"
rust-s3 = "=0.35.1"
thiserror = "=1.0.69"
tokio = { version = "=1.54.1", features = ["full"] }
tracing = "=0.1.44"
tracing-subscriber = { version = "=0.3.23", features = ["env-filter"] }
walkdir = "=2.5.0"
