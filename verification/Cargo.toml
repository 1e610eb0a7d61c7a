[package]
name = "wishmaster"
version = "0.1.0"
edition = "2021"
publish = false

[dependencies]
base64 = "=0.22.1"
chrono = "=0.4.45"
dirs = "=5.0.1"
encoding_rs = "=0.8.42"
fastembed = "3"
futures-util = "0.3"
hf-hub = "0.4"
llama-cpp-2 = "0.1"
nvml-wrapper = "0.10"
once_cell = "=1.21.4"
reqwest = { version = "0.12", features = ["json", "stream"] }
rusqlite = { version = "=0.32.1", features = ["bundled"] }
serde = { version = "=1.0.229", features = ["derive"] }
serde_json = "=1.0.154"
shellexpand = "=3.1.2"
thiserror = "=1.0.69"
tokio = { version = "1", features = ["full"] }
