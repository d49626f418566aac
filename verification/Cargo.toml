[package]
name = "extensible_rate_limit"
version = "0.1.0"
edition = "2021"
publish = false

[dependencies]
dashmap = "*"
redis = { version = "*", features = ["tokio-comp", "connection-manager"] }
actix-web = "*"
futures = "*"
log = "*"
once_cell = "*"
thiserror = "*"
