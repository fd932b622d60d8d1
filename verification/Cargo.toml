[package]
name = "giest"
version = "0.1.0"
edition = "2021"
publish = false

[dependencies]
anyhow = "1"
compact_str = "*"
eframe = { version = "*", default-features = false, features = ["x11"] }
libghostty-vt = "*"
png = "0.18"
portable-pty = "*"
serde = { version = "1", features = ["derive"] }
serde_json = "1"
