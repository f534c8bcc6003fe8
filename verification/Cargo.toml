[package]
name = "cart_api"
version = "0.1.0"
edition = "2021"
publish = false

[dependencies]
axum = "=0.8.9"
axum_thiserror = { version = "=0.3.0", default-features = false }
confy = "=2.0.0"
serde = { version = "=1.0.229", features = ["derive"] }
thiserror = "=2.0.21"
tokio = { version = "=1.53.2", features = ["macros", "rt-multi-thread", "net"] }
tracing-subscriber = "=0.3.23"
