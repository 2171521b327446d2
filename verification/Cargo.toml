[package]
name = "agl_core"
version = "0.1.0"
edition = "2021"
publish = false

[dependencies]
anyhow = "1"
jsonschema = { version = "*", default-features = false }
schemars = "*"
semver = "1"
serde = { version = "1", features = ["derive"] }
serde_json = "1"
sha2 = "0.10"
thiserror = "2"
tokio = { version = "1", features = ["macros", "rt-multi-thread", "time"] }
tokio-util = "0.7"
uuid = { version = "1", features = ["v7"] }
