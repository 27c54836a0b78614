[package]
name = "websearch"
version = "0.1.0"
edition = "2021"
publish = false

[dependencies]
rand = "=0.9.5"
scraper = { version = "=0.29.0", default-features = false }
url = "=2.5.8"
urlencoding = "=2.1.3"
reqwest = { version = "=0.12.28", default-features = false, features = ["rustls-tls", "json"] }
tokio = { version = "=1.54.1", features = ["rt-multi-thread", "macros", "time", "sync"] }
serde_json = "=1.0.154"
eframe = { version = "=0.36.2", default-features = false, features = ["glow", "default_fonts", "x11"] }
egui_commonmark = { version = "=0.25.0", default-features = false, features = ["pulldown_cmark"] }
egui_file = "=0.28.0"
