[package]
name = "poetry"
version = "0.1.0"
edition = "2021"
publish = false

[dependencies]
async-trait = "0.1"
chrono = "0.4"
clap = { version = "3.2", features = ["derive", "cargo"] }
dialoguer = "0.10"
futures = "0.3"
git-url-parse = "0.4"
reqwest = { version = "0.11", features = ["json"] }
semver = { version = "1", features = ["serde"] }
serde = { version = "1", features = ["derive"] }
thiserror = "1"
tokio = { version = "1", features = ["macros", "rt-multi-thread"] }
toml = "0.5"
