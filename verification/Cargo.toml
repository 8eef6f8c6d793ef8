[package]
name = "baofzf"
version = "0.1.0"
edition = "2021"
publish = false

[dependencies]
serde_json = "1"
json_to_table = "*"
vaultrs = "*"
tokio = { version = "1", features = ["macros", "rt-multi-thread"] }
clap = { version = "4", features = ["derive"] }
edit = "*"
skim = { version = "*", default-features = false }
crossterm = { version = "*", default-features = false }
