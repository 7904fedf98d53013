[package]
name = "pg_replicate"
version = "0.1.0"
edition = "2021"
publish = false

[dependencies]
async-trait = "0.1"
azure_core = "0.22"
azure_identity = "0.22"
bytes = "1"
futures = "0.3"
native-tls = "0.2"
pg_escape = "0.1"
postgres-native-tls = "0.5"
thiserror = "1"
tokio = { version = "1", features = ["rt"] }
tokio-postgres = "0.7"
tracing = "0.1"
