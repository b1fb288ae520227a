[package]
name = "key_logger"
version = "0.1.0"
edition = "2021"
publish = false

[dependencies]
csv = "1"
serde = { version = "1", features = ["derive"] }
serde_json = "1"
toml = "*"
clap = { version = "4", features = ["derive"] }
log = "0.4"
env_logger = "*"
thiserror = "*"
chrono = "0.4"
ctrlc = "*"
signal-hook = "*"
device_query = "*"
good_lp = { version = "1", default-features = false, features = ["highs"] }
image = "*"
imageproc = "*"
ab_glyph = "*"
font-kit = "*"
