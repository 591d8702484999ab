[package]
name = "prismatic"
version = "0.1.0"
edition = "2021"
publish = false

[dependencies]
serde = { version = "1", features = ["derive"] }
serde_json = "1"
thiserror = "2"
zbus = "5"
tokio = { version = "1", features = ["macros", "rt-multi-thread", "signal", "time"] }
libadwaita = { version = "*", features = ["v1_6"] }
