[package]
name = "lazyslurm"
version = "0.1.0"
edition = "2021"
publish = false

[dependencies]
anyhow = "1"
chrono = "0.4"
clap = { version = "4", features = ["derive"] }
ratatui = "0.29"
tokio = { version = "1", features = ["macros", "rt-multi-thread", "process", "sync", "time"] }
