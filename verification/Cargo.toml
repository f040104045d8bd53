[package]
name = "cart_clones"
version = "0.1.0"
edition = "2021"
publish = false

[dependencies]
base64 = "=0.21.7"
hdi = "=0.5.4"
hdk = { version = "=0.4.4", features = ["properties"] }
serde = { version = "=1.0.203", features = ["derive"] }
serde_json = "=1.0.143"
