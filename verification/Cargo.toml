[package]
name = "poptg"
version = "0.1.0"
edition = "2021"
publish = false

[dependencies]
rand = "*"
reqwest = { version = "*", default-features = false }
tokio = { version = "*", features = ["macros", "rt"] }
url = "*"
home = "*"

[dev-dependencies]
serde_json = "*"
