[package]
name = "modmod"
version = "0.1.0"
edition = "2021"
publish = false

[dependencies]
globset = "*"
fs_extra = "*"
serde = { version = "*", features = ["derive"] }
toml = "*"
