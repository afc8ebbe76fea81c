[package]
name = "gdsu"
version = "0.1.0"
edition = "2021"
publish = false

[dependencies]
regex = "1"
gds21 = "*"
iron-shapes = "*"
libreda-db = "*"
libreda-lefdef = "*"
libreda-oasis = "*"
clap = { version = "4", features = ["cargo"] }
csv = "1"
serde = { version = "1", features = ["derive"] }
serde_json = "1"
serde_yaml = "*"
toml = "*"
