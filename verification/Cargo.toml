[package]
name = "hdk_extensions"
version = "0.1.0"
edition = "2021"
publish = false

[dependencies]
hdk = "*"
holo_hash = "*"
serde = "*"
thiserror = "*"
