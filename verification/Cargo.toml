[package]
name = "link_registry"
version = "0.1.0"
edition = "2021"
publish = false

[dependencies]
anyhow = "=1.0.104"
blake3 = "=1.8.7"
bpaf = { version = "=0.9.28", features = ["derive"] }
serde_json = "=1.0.151"
thiserror = "=2.0.21"
