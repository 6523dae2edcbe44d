[package]
name = "kromodo_core"
version = "0.1.0"
edition = "2021"
publish = false

[dependencies]
chrono = "0.4"
rusqlite = { version = "*", features = ["bundled", "chrono"] }
relm4 = { version = "0.9", features = ["libadwaita"] }
