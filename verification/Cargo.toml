[package]
name = "incrementor"
version = "0.1.0"
edition = "2021"
publish = false

[dependencies]
regex = "*"
clap = { version = "*", features = ["derive"] }
color-eyre = "*"
eyre = "*"
figment = { version = "*", features = ["toml", "env"] }
git2 = "*"
indexmap = { version = "*", features = ["serde"] }
semver = { version = "*", features = ["serde"] }
serde = { version = "*", features = ["derive"] }
serde_json = "*"
thiserror = "*"
toml = "*"
