[package]
name = "viewview"
version = "0.1.0"
edition = "2021"
publish = false

[dependencies]
axum = "=0.8.9"
bytes = "=1.12.1"
clap = { version = "=4.6.7", features = ["derive"] }
color-eyre = "=0.6.5"
futures-util = "=0.3.34"
geo = { version = "=0.33.1", default-features = false, features = ["serde"] }
proj4rs = "=0.3.0"
rstar = "=0.14.0"
serde = { version = "=1.0.229", features = ["derive"] }
serde_json = "=1.0.154"
sqlx = { version = "=0.8.6", default-features = false, features = ["sqlite", "runtime-tokio"] }
tokio = { version = "=1.54.1", features = ["macros", "rt-multi-thread", "net", "time"] }
tower-http = { version = "=0.6.11", features = ["compression-gzip", "compression-br", "cors", "trace"] }
tracing = "=0.1.44"
tracing-subscriber = { version = "=0.3.23", features = ["env-filter"] }
