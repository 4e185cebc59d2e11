[package]
name = "coap_server"
version = "0.1.0"
edition = "2021"
publish = false

[dependencies]
coap-lite = "*"
tokio = { version = "1", features = ["full"] }
tokio-stream = "*"
tokio-util = { version = "*", features = ["codec", "net"] }
futures = "*"
async-trait = "*"
dyn-clone = "*"
log = "*"
rand = "*"
hashbrown = "*"
bytes = "*"
pin-project = "*"
anyhow = "*"
thiserror = "*"
