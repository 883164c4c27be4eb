[package]
name = "timr"
version = "0.1.0"
edition = "2021"
publish = false

[dependencies]
chrono = "*"
ctrlc = "*"
serde = { version = "*", features = ["derive"] }
termsize = "*"
toml = "*"
