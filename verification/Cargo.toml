[package]
name = "wingmate"
version = "0.1.0"
edition = "2021"
publish = false

[dependencies]
time = { version = "0.3", features = ["std", "local-offset"] }
nix = { version = "*", features = ["signal", "process", "fs"] }
tokio = { version = "1", features = ["full"] }
tokio-util = { version = "0.7" }
