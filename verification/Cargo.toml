[package]
name = "smarthome_model"
version = "0.1.0"
edition = "2021"
publish = false

[dependencies]
chrono = "0.4"
chrono-humanize = "0.2"
colortemp = "0.1"
egui_extras = "0.27"
ehttp = "0.5"
hsl = "0.1"
instant = "0.1"
serde = { version = "1", features = ["derive"] }
serde_json = "1"
thiserror = "1"
url = "2"
