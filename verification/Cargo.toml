[package]
name = "deepwell"
version = "0.1.0"
edition = "2021"
publish = false

[dependencies]
wikidot-normalize = "=0.12.0"
similar = "=2.7.0"
scraper = "=0.29.0"
sha2 = "=0.10.9"
data-encoding = "=2.11.1"
rand = "=0.10.3"
uuid = { version = "=1.29.0", features = ["v4"] }
time = { version = "=0.3.55", features = ["formatting"] }
serde = { version = "=1.0.229", features = ["derive"] }
serde_json = "=1.0.154"
ego-tree = "=0.11.1"
httpdate = "=1.0.3"
ftml = "*"
