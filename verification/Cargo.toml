[package]
name = "serde_valid"
version = "0.1.0"
edition = "2021"
publish = false

[dependencies]
itertools = "=0.10.5"
num-traits = "=0.2.19"
paste = "=1.0.15"
proc-macro-error = "=1.0.4"
proc-macro2 = "=1.0.107"
quote = "=1.0.47"
regex = "=1.13.1"
serde = { version = "=1.0.229", features = ["derive"] }
serde_json = "=1.0.154"
syn = { version = "=1.0.109", features = ["full", "extra-traits"] }
thiserror = "=1.0.69"
toml = "=0.5.11"
unicode-segmentation = "1"
