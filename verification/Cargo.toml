[package]
name = "mpris_hyprland_host"
version = "0.1.0"
edition = "2021"
publish = false

[dependencies]
zvariant = "5"
zbus = { version = "5", default-features = false, features = ["tokio"] }
tokio = { version = "1", features = ["rt", "macros", "io-std", "io-util", "sync"] }
serde = { version = "1", features = ["derive"] }
serde_json = "1"
anyhow = "1"
log = "0.4"
