[package]
name = "ddo_data"
version = "0.1.0"
edition = "2021"
publish = false

[dependencies]
quick-xml = { version = "*", features = ["serialize"] }
serde = { version = "1", features = ["derive"] }
serde_json = "1"
anyhow = "1"
toml = "*"
rusqlite = { version = "*", features = ["bundled"] }
walkdir = "2"
clap = { version = "4", features = ["derive"] }
axum = "*"
bytes = "1"
futures-util = "*"
tokio = { version = "1", features = ["full"] }
tower-http = { version = "*", features = ["compression-gzip", "compression-br", "cors", "set-header", "trace"] }
tower_governor = "*"
tracing = "*"
tracing-subscriber = { version = "*", features = ["env-filter"] }
utoipa = { version = "*", features = ["axum_extras"] }
utoipa-axum = "*"
utoipa-scalar = { version = "*", features = ["axum"] }
