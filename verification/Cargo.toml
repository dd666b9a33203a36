[package]
name = "semantic_rs"
version = "0.1.0"
edition = "2021"
publish = false

[dependencies]
url = "=2.5.8"
git2 = { version = "=0.21.0", default-features = false }
toml = "=1.1.6"
docopt = "=1.1.1"
serde = { version = "=1.0.229", features = ["derive"] }
env_logger = "=0.11.11"
travis-after-all = "=1.0.0"
hubcaps = "=0.3.16"
hyper = "=0.10.16"
