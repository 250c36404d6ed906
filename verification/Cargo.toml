[package]
name = "luoshu"
version = "0.1.0"
edition = "2021"
publish = false

[dependencies]
uuid = { version = "1", features = ["v4"] }
chrono = "0.4"
serde = { version = "1", features = ["derive"] }
serde_json = "1"
tokio = { version = "1", features = ["full"] }
sled = "0.34"
clap = { version = "4", features = ["derive"] }
tracing = "0.1"
tracing-subscriber = "0.3"
salvo = { version = "*", features = ["serve-static"] }
anyhow = "1"
thiserror = "*"
async-trait = "0.1"
bytes = "1"
once_cell = "1"
pyo3 = "*"
pyo3-asyncio = { version = "*", features = ["tokio-runtime"] }
