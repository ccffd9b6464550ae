[package]
name = "gitsum"
version = "0.1.0"
edition = "2021"
publish = false

[dependencies]
clap = { version = "*", features = ["derive"] }
colored = "*"
eyre = "*"
reqwest = { version = "*", default-features = false, features = ["json"] }
serde = { version = "*", features = ["derive"] }
serde_json = "*"
tiktoken-rs = "*"
tokio = { version = "*", features = ["macros", "rt-multi-thread"] }
