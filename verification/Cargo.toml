[package]
name = "coding_puzzles"
version = "0.1.0"
edition = "2021"
publish = false

[dependencies]
itertools = "*"
reqwest = { version = "*", features = ["json"] }
serde = { version = "*", features = ["derive"] }
serde_json = "*"
tokio = { version = "*", features = ["macros", "rt-multi-thread"] }
