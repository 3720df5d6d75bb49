[package]
name = "mc_manager"
version = "0.1.0"
edition = "2021"
publish = false

[dependencies]
flate2 = "*"
xz2 = "*"
tar = "*"
chrono = "*"
toml = "*"
clap = "*"
serde = { version = "*", features = ["derive"] }
reqwest = { version = "*", default-features = false, features = ["blocking", "json"] }
