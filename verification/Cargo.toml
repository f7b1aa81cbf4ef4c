[package]
name = "cli_collect"
version = "0.1.0"
edition = "2021"
publish = false

[dependencies]
chrono = "0.4"
clap = { version = "4", features = ["derive"] }
colored = "2"
directories = "5"
humansize = "2"
indexmap = "2"
inquire = "0.7"
serde = { version = "1", features = ["derive"] }
toml = "0.8"
