[package]
name = "tz_player"
version = "0.1.0"
edition = "2021"
publish = false

[dependencies]
hex = "0.4"
sha1 = "0.10"
rand = "0.9"
rusqlite = { version = "*", features = ["bundled"] }
serde = { version = "1", features = ["derive"] }
serde_json = "1"
directories = "*"
thiserror = "2"
