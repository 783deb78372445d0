[package]
name = "provision"
version = "0.1.0"
edition = "2021"
publish = false

[dependencies]
fs_extra = "1"
serde = { version = "1", features = ["derive"] }
tera = { version = "1", default-features = false }
tracing = "0.1"
which = "4"

[dev-dependencies]
serde_yaml = "0.9"
