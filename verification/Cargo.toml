[package]
name = "helios_rot"
version = "0.1.0"
edition = "2021"
publish = false

[dependencies]
async-trait = "=0.1.92"
getrandom = { version = "=0.3.4", features = ["std"] }
p384 = { version = "=0.13.1", features = ["ecdsa", "pem", "pkcs8", "std"] }
rustix = { version = "=1.1.6", features = ["std"] }
serde = { version = "=1.0.229", features = ["derive"] }
serde_with = "=3.24.0"
thiserror = "=2.0.21"
tokio = { version = "=1.54.1", features = ["rt"] }
x509-cert = { version = "=0.2.5", features = ["builder", "pem", "std"] }
