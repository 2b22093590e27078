[package]
name = "mountbox"
version = "0.1.0"
edition = "2021"
publish = false

[dependencies]
nix = { version = "=0.27.1", features = ["ptrace", "process", "fs", "signal", "uio", "resource"] }
clap = { version = "=4.6.7", features = ["derive"] }
