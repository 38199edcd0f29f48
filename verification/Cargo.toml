[package]
name = "blanktrace"
version = "0.1.0"
edition = "2021"
publish = false

[dependencies]
regex = "*"
rand = "0.8"
rand_agents = "*"
rusqlite = { version = "*", features = ["bundled"] }
hyper = "*"
tokio = { version = "1", features = ["full"] }
async-trait = "*"
clap = { version = "4", features = ["derive"] }
env_logger = "*"
log = "*"
anyhow = "*"
serde = { version = "1", features = ["derive"] }
serde_yaml = "*"
pem = "*"
rcgen = "*"
hudsucker = "*"
