[package]
name = "mwparser_utils"
version = "0.1.0"
edition = "2021"
publish = false

[dependencies]
mediawiki_parser = "*"
serde = { version = "*", features = ["derive"] }
serde_yaml = "*"
