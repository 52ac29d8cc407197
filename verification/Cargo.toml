[package]
name = "backupper"
version = "0.1.0"
edition = "2021"
publish = false

[dependencies]
chrono = "0.4"
uuid = { version = "1", features = ["v4"] }
serde = { version = "1", features = ["derive"] }
serde_json = "1"
clap = { version = "4", features = ["derive"] }
zip = { version = "0.6", default-features = false, features = ["deflate"] }
log = "0.4"
log4rs = "1"
exitcode = "1"
prost = "0.12"
bytes = "1"
