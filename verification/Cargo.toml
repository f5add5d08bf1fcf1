[package]
name = "diff_harness"
version = "0.1.0"
edition = "2021"
publish = false

[dependencies]
color-eyre = "0.6"
colored = "*"
crossterm = "*"
csv = "1"
ratatui = "*"
rayon = "1"
reqwest = { version = "*", features = ["json"] }
serde = { version = "1", features = ["derive"] }
tokio = { version = "1", features = ["macros", "rt-multi-thread"] }
wait-timeout = "0.2"
