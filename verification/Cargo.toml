[package]
name = "f750c"
version = "0.1.0"
edition = "2021"
publish = false

[dependencies]
parse_int = "*"
indexmap = "*"
uuid = { version = "*", features = ["v7"] }
strum = { version = "*", features = ["derive"] }
thiserror = "*"
log = "*"
clap = { version = "*", features = ["derive"] }
walkdir = "*"
