[package]
name = "chroma_log"
version = "0.1.0"
edition = "2021"
publish = false

[dependencies]
uuid = "1"
tonic = "0.12"
thiserror = "1"
tokio = { version = "1", features = ["sync"] }
futures = "0.3"
