[package]
name = "otel_rust_agent"
version = "0.1.0"
edition = "2021"
publish = false

[dependencies]
goblin = "0.8"
rustc-demangle = "0.1"
procfs = "0.16"
memmap2 = "0.9"
tokio = { version = "1", features = ["full"] }
clap = { version = "4", features = ["derive", "env"] }
env_logger = "0.11"
log = "0.4"
thiserror = "1"
async-trait = "0.1"
opentelemetry = "0.24"
opentelemetry_sdk = { version = "0.24", features = ["rt-tokio"] }
opentelemetry-otlp = { version = "0.17", features = ["tonic"] }
opentelemetry-stdout = { version = "0.5", features = ["trace"] }
