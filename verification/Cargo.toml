[package]
name = "constantinople"
version = "0.1.0"
edition = "2021"
publish = false

[dependencies]
axum = "=0.8.9"
clap = { version = "=4.6.7", features = ["derive"] }
commonware-codec = "=2026.7.1"
# The macros expand inside the crate above: both stay on one release.
commonware-codec-macros = "=2026.7.1"
commonware-cryptography = "=2026.7.1"
commonware-formatting = "=2026.7.1"
commonware-macros = "=2026.7.1"
# Likewise.
commonware-macros-impl = "=2026.7.1"
commonware-math = "=2026.7.1"
commonware-parallel = "=2026.7.1"
commonware-utils = "=2026.7.1"
futures = "0.3"
mimalloc = { version = "0.1", default-features = false }
rand = "=0.10.3"
reqwest = { version = "=0.13.5", default-features = false, features = ["json"] }
serde = { version = "1", features = ["derive"] }
serde_json = "1"
serde_yaml = "0.9"
tokio = { version = "1", features = ["full"] }
toml = "*"
tower-http = { version = "0.6", features = ["cors"] }
tracing = "0.1"
tracing-subscriber = "0.3"

[dev-dependencies]
commonware-consensus = "=2026.7.1"
