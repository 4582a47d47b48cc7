[package]
name = "git_ombl"
version = "0.1.0"
edition = "2021"
publish = false

[dependencies]
chrono = "0.4"
tabled = "*"
git2 = "*"

[dev-dependencies]
serde_json = "1"
serde_yaml = "0.9"
strip-ansi-escapes = "*"
