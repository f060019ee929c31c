[package]
name = "vhdl_doc"
version = "0.1.0"
edition = "2021"
publish = false

[dependencies]
anyhow = "1"
clap = { version = "4", features = ["derive"] }
derive_more = { version = "*", features = ["display"] }
image = { version = "0.25", default-features = false, features = ["png"] }
log = "0.4"
schemars = "*"
serde = { version = "1", features = ["derive"] }
serde_json = "1"
