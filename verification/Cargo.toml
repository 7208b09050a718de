[package]
name = "filetransfer"
version = "0.1.0"
edition = "2021"
publish = false

[dependencies]
bytes = "*"
clap = { version = "*", features = ["derive"] }
env_logger = "*"
log = "*"
mio = { version = "*", features = ["net", "os-poll"] }
tquic = "*"
