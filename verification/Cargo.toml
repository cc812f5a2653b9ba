[package]
name = "sbcli"
version = "0.1.0"
edition = "2021"
publish = false

[dependencies]
anyhow = "*"
chrono = { version = "*", features = ["serde"] }
clap = { version = "*", features = ["derive"] }
colored = "*"
confy = "*"
convert_case = "*"
dirs = "*"
futures = "*"
open = "*"
reqwest = { version = "*", default-features = false, features = ["json", "rustls-tls"] }
rpassword = "*"
serde = { version = "*", features = ["derive"] }
serde_json = "*"
tokio = { version = "*", features = ["macros", "rt-multi-thread", "fs"] }
