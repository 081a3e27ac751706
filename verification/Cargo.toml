[package]
name = "faber"
version = "0.1.0"
edition = "2021"
publish = false

[dependencies]
rand = "*"
sha2 = "*"
caps = "*"
nix = { version = "*", features = ["mount", "sched", "process", "user", "hostname", "fs", "signal"] }
axum = "*"
tokio = { version = "*", features = ["full"] }
tower = { version = "*", features = ["limit", "util"] }
