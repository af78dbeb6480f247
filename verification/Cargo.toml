[package]
name = "aws_mls"
version = "0.1.0"
edition = "2021"
publish = false

[dependencies]
tls_codec = { version = "=0.4.2", features = ["std", "mls"] }
async-trait = "=0.1.92"
futures = "=0.3.34"
thiserror = "=1.0.69"
