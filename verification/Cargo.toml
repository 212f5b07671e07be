[package]
name = "mdbook_markers"
version = "0.1.0"
edition = "2021"
publish = false

[dependencies]
regex = "=1.13.1"
serde_json = "=1.0.154"
serde_yaml = "=0.9.34"
toml = "=0.5.11"
hashbrown = { version = "=0.14.5", features = ["serde"] }
mdbook = { version = "=0.4.52", default-features = false }
log = "=0.4.34"
