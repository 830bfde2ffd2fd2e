[package]
name = "neolink_core"
version = "0.1.0"
edition = "2021"
publish = false

[dependencies]
md5 = "0.7"
anyhow = "1"
log = "0.4"
clap = { version = "4", features = ["derive"] }
serde = { version = "1", features = ["derive"] }
tokio = { version = "1", features = ["rt", "rt-multi-thread", "macros", "net", "time"] }
