[package]
name = "loiter"
version = "0.1.0"
edition = "2021"
publish = false

[dependencies]
time = { version = "0.3", features = ["formatting", "parsing", "local-offset"] }
serde = { version = "1", features = ["derive"] }
serde_json = "1"
structopt = "0.3"
thiserror = "1"
log = "0.4"
simple_logger = "*"
home = "0.5"
comfy-table = "*"
crossterm = "*"
