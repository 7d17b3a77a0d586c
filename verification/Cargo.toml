[package]
name = "cryptoscope"
version = "0.5.0"
edition = "2021"
publish = false

[dependencies]
regex = "1"
url = "2"
argon2 = "0.5"
chrono = "0.4"
time = "0.3"
serde = { version = "1", features = ["derive"] }
serde_json = "1"
axum = "0.8"
tokio = { version = "1", features = ["full"] }
tower-http = { version = "0.6", features = ["cors", "trace"] }
tracing = "0.1"
tracing-subscriber = { version = "0.3", features = ["env-filter"] }
utoipa = { version = "5", features = ["axum_extras"] }
utoipa-swagger-ui = { version = "9", features = ["axum", "vendored"] }
jsonwebtoken = "9"
rusqlite = { version = "*", features = ["bundled"] }
reqwest = { version = "0.12", default-features = false, features = ["json", "rustls-tls"] }
rmcp = { version = "*", features = ["server", "transport-io", "macros"] }
schemars = "*"
clap = { version = "4", features = ["derive"] }
colored = "*"
dotenvy = "0.15"
dirs = "*"
anyhow = "1"
futures = "0.3"
async-trait = "0.1"
rand = "0.8"
