[package]
name = "prophesy"
version = "0.1.0"
edition = "2021"
publish = false

[dependencies]
roxmltree = "0.20"
gtk4 = "0.7"
glib = "0.18"
starship-battery = "0.8"
uom = "0.35"
chrono = "0.4"
serde = { version = "1", features = ["derive"] }
reqwest = { version = "0.11", default-features = false, features = ["blocking", "json"] }
once_cell = "1"
