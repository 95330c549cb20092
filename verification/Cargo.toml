[package]
name = "judge"
version = "0.1.0"
edition = "2021"
publish = false

[dependencies]
ahash = "*"
axum = "*"
axum_typed_multipart = "*"
color-eyre = "*"
dotenvy = "*"
landlock = "*"
libc = "0.2"
once_cell = "1"
rlimit = "*"
schemars = "*"
serde = { version = "1", features = ["derive"] }
serde_json = "1"
thiserror = "*"
tokio = { version = "1", features = ["full"] }
tokio-stream = "*"
toml = "*"
tower-http = { version = "*", features = ["trace"] }
tracing = "0.1"
tracing-error = "*"
tracing-subscriber = { version = "*", features = ["env-filter"] }
tracing-tree = "*"
uuid = { version = "1", features = ["v4"] }
which = "*"
yansi = "*"
