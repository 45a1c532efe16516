[package]
name = "tab_cli"
version = "0.1.0"
edition = "2021"
publish = false

[dependencies]
uuid = { version = "1", features = ["v4"] }
time = { version = "0.3", features = ["formatting", "parsing"] }
clap = { version = "4", features = ["derive"] }
libc = "0.2"
serde_json = "1"
