[package]
name = "plexus_locus"
version = "0.1.0"
edition = "2021"
publish = false

[dependencies]
anyhow = "=1.0.104"
async-stream = "=0.3.6"
async-trait = "=0.1.92"
axum = "=0.8.9"
chrono = "=0.4.45"
clap = { version = "=4.6.7", features = ["derive"] }
futures = "=0.3.34"
jsonrpsee = { version = "=0.26.1", features = ["server", "macros"] }
plexus-core = "=0.7.0"
plexus-macros = "=0.7.0"
plexus-transport = "=0.6.0"
rhai = "=1.27.0"
schemars = { version = "=1.2.3", features = ["derive"] }
serde = { version = "=1.0.229", features = ["derive"] }
serde_json = "=1.0.154"
thiserror = "=2.0.21"
tokio = { version = "=1.54.1", features = ["full"] }
tracing = "=0.1.44"
tracing-subscriber = { version = "=0.3.23", features = ["env-filter"] }
uuid = { version = "=1.29.0", features = ["v4"] }
vt100 = "=0.18.1"
