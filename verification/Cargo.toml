[package]
name = "rustpdf"
version = "0.1.0"
edition = "2021"
publish = false

[dependencies]
lopdf = "*"
image = "*"
axum = { version = "*", features = ["multipart"] }
tokio = { version = "*", features = ["rt-multi-thread", "macros", "net"] }
serde = { version = "*", features = ["derive"] }
utoipa = { version = "*", features = ["axum_extras"] }
tracing-subscriber = "*"
