[package]
name = "aborganizer"
version = "0.1.0"
edition = "2021"
publish = false

[dependencies]
anyhow = "1"
argon2 = { version = "=0.5.3", features = ["std"] }
axum = "0.8"
base64 = "=0.22.1"
blake3 = { version = "1", features = ["pure"] }
clap = { version = "4", features = ["derive", "env"] }
fd-lock = "4"
lofty = "0.24"
nix = { version = "0.29", features = ["fs"] }
reqwest = { version = "0.12", default-features = false, features = ["json"] }
rpassword = "7"
serde = { version = "1", features = ["derive"] }
serde_json = "=1.0.154"
sqlx = { version = "0.8", default-features = false, features = ["sqlite", "runtime-tokio"] }
symphonia = { version = "0.6", features = ["mp3", "aac", "isomp4", "alac"] }
tokio = { version = "1", features = ["full"] }
tokio-util = "0.7"
tracing = "0.1"
tracing-subscriber = { version = "0.3", features = ["env-filter"] }
walkdir = "2"
