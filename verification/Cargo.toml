[package]
name = "aptos_script_compose"
version = "0.1.0"
edition = "2021"
publish = false

[dependencies]
anyhow = "1"
bcs = "0.1"
clap = { version = "4", features = ["derive"] }
hex = "0.4"
move-core-types = "*"
num-bigint = "0.4"
reqwest = { version = "0.12", default-features = false, features = ["blocking", "json"] }
serde = { version = "1", features = ["derive"] }
serde_json = "1"
urlencoding = "2"
