[package]
name = "papersmith"
version = "0.1.0"
edition = "2021"
publish = false

[dependencies]
base64 = "*"
repair_json = "*"
clap = { version = "*", features = ["derive"] }
colog = "*"
glob = "*"
log = "*"
reqwest = { version = "*", default-features = false, features = ["json"] }
serde = { version = "*", features = ["derive"] }
serde_json = "*"
tokio = { version = "*", features = ["macros", "rt-multi-thread"] }
