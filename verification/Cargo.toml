[package]
name = "galaxybook-sound"
version = "0.1.0"
edition = "2021"
publish = false

[dependencies]
gettext-rs = { version = "*", features = ["gettext-system"] }
serde = { version = "1", features = ["derive"] }
serde_json = "1"
gtk4 = { version = "*", features = ["v4_10"] }
libadwaita = { version = "*", features = ["v1_5"] }
