[package]
name = "wire"
version = "0.1.0"
edition = "2021"
publish = false

[dependencies]
clap = { version = "4", features = ["derive"] }
futures-util = "0.3"
libmcp = "=1.1.0"
reqwest = { version = "=0.12.28", default-features = false, features = ["json"] }
rmcp = { version = "=3.8.0", features = ["server", "transport-io", "macros"] }
schemars = { version = "=1.2.3", features = ["uuid1"] }
serde = { version = "1", features = ["derive"] }
serde_json = "=1.0.154"
thiserror = "2"
time = { version = "=0.3.55", features = ["formatting"] }
tokio = { version = "1", features = ["full"] }
tokio-tungstenite = "=0.28.0"
toml = "=0.9.12"
uuid = { version = "=1.29.0", features = ["serde", "v4"] }
