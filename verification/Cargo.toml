[package]
name = "filekeeper"
version = "0.1.0"
edition = "2021"
publish = false

[dependencies]
directories = "*"
serde = { version = "1", features = ["derive"] }
toml = "*"
tokio = { version = "1", features = ["fs", "io-util", "process", "rt-multi-thread", "macros"] }
