[package]
name = "star_randsrv"
version = "0.1.0"
edition = "2021"
publish = false

[dependencies]
ppoprf = { version = "=0.5.0", features = ["key-sync"] }
base64 = "=0.23.1"
bincode = "=1.3.3"
time = { version = "=0.3.55", features = ["formatting", "parsing"] }
calendar-duration = "=1.0.0"
serde = { version = "*", features = ["derive"] }
serde_json = "*"
axum = "*"
tokio = { version = "*", features = ["full"] }
clap = { version = "*", features = ["derive"] }
reqwest = { version = "*", default-features = false }
