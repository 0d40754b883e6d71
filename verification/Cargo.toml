[package]
name = "storage"
version = "0.1.0"
edition = "2021"
publish = false

[dependencies]
memmap2 = "0.9"
uuid = { version = "1", features = ["v4"] }
tokio = { version = "1", features = ["fs"] }
serde = { version = "1", features = ["derive"] }
thiserror = "1"
enum-as-inner = "0.6"
