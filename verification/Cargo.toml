[package]
name = "genpdf"
version = "0.1.0"
edition = "2021"
publish = false

[dependencies]
lopdf = "=0.46.0"
image = { version = "=0.24.9", default-features = false, features = ["jpeg"] }
rand = "=0.8.8"
rand_core = { version = "=0.6.4", features = ["getrandom"] }
base64 = "=0.13.1"
hyper = { version = "=0.14.32", features = ["full"] }
tokio = { version = "=1.54.1", features = ["full"] }
serde = { version = "=1.0.229", features = ["derive"] }
serde_json = "=1.0.154"
compress = "=0.2.1"
rsa = "=0.9.10"
scrypt = "=0.10.0"
