[package]
name = "satoshi_dice"
version = "0.1.0"
edition = "2021"
publish = false

[dependencies]
anyhow = "=1.0.104"
ark-core = "=0.12.0"
ark-grpc = "=0.12.0"
async-stream = "=0.3.6"
axum = { version = "=0.8.9", features = ["ws"] }
bitcoin = "=0.32.102"
clap = { version = "=4.6.7", default-features = false, features = ["std", "derive", "help", "usage", "error-context"] }
futures = "=0.3.34"
futures-util = "=0.3.34"
hex = "=0.4.3"
rand = "=0.8.8"
rustls = "=0.23.46"
serde = { version = "=1.0.229", features = ["derive"] }
serde_json = "=1.0.154"
sha2 = "=0.10.9"
sqlx = { version = "=0.8.6", default-features = false, features = ["sqlite", "runtime-tokio", "time"] }
takecell = "=0.1.1"
teloxide = { version = "=0.17.0", default-features = false, features = ["macros", "rustls"] }
time = "=0.3.55"
tokio = { version = "=1.54.1", features = ["rt-multi-thread", "macros", "net", "time", "sync", "io-util"] }
toml = "=0.8.23"
tower-http = { version = "=0.6.11", features = ["cors"] }
tracing = "=0.1.44"
tracing-subscriber = { version = "=0.3.23", default-features = false, features = ["fmt", "std"] }
