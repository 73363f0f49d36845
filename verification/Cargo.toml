[package]
name = "hueble_rs"
version = "0.1.0"
edition = "2021"
publish = false

[dependencies]
bluer = { version = "0.17", features = ["bluetoothd"] }
image = "0.24"
kmeans_colors = { version = "0.6", default-features = false, features = ["palette_color"] }
palette = "0.7"
rand = "0.8"
tokio = { version = "1", features = ["rt", "macros", "signal", "time", "sync"] }
urlencoding = "2"
uuid = "1"
