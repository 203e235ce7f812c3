[package]
name = "modtool"
version = "0.1.0"
edition = "2021"
publish = false

[dependencies]
modfile = "*"
serde = { version = "*", features = ["derive"] }
serde_json = "*"
docopt = "*"
anyhow = "*"
sanitize-filename = "*"
