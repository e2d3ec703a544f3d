[package]
name = "platinum_shell"
version = "0.1.0"
edition = "2021"
publish = false

[dependencies]
chrono = "0.4"
rusqlite = { version = "*", features = ["bundled"] }
relm4 = "*"
libadwaita = { version = "*", features = ["v1_4"] }
