[package]
name = "flake_edit"
version = "0.1.0"
edition = "2021"
publish = false

[dependencies]
nixel = "*"
url = "*"
semver = "*"
reqwest = { version = "*", default-features = false, features = ["json"] }
tokio = { version = "*", features = ["fs", "process", "rt-multi-thread", "macros"] }
clap = { version = "*", features = ["derive"] }
serde = { version = "*", features = ["derive"] }
async-trait = "*"
color-eyre = "*"
indicatif = "*"
prettytable-rs = "*"
