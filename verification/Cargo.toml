[package]
name = "ttml_processor"
version = "0.1.0"
edition = "2021"
publish = false

[dependencies]
quick-xml = "0.38"
regex = "1"
serde = { version = "1", features = ["derive"] }
thiserror = "2"
lyrics_helper_core = "*"
