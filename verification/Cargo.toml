[package]
name = "ikaros_virtual"
version = "0.1.0"
edition = "2021"
publish = false

[dependencies]
chrono = "0.4"
serde = { version = "1", features = ["derive"] }
serde_json = "1"
gtk4 = "*"
gdk-pixbuf = "*"
gtk4-layer-shell = "*"
