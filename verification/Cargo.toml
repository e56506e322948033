[package]
name = "onlyref"
version = "0.1.0"
edition = "2021"
publish = false

[dependencies]
chrono = "=0.4.45"
fxhash = "=0.2.1"
image = "=0.24.9"
kmeans_colors = { version = "=0.6.0", default-features = false, features = ["palette_color"] }
log = "=0.4.34"
mime_guess = "=2.0.5"
palette = "=0.7.7"
rand = "=0.8.8"
serde = { version = "=1.0.229", features = ["derive"] }
serde_json = { version = "=1.0.154", features = ["preserve_order"] }
urlencoding = "=2.1.3"
