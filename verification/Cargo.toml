[package]
name = "rssg"
version = "0.1.0"
edition = "2021"
publish = false

[dependencies]
regex = "*"
serde_yaml = "*"
toml = "*"
log = "*"
fern = "*"
sarge = "*"
