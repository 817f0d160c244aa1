[package]
name = "assemble-core"
version = "0.1.0"
edition = "2021"
publish = false

[dependencies]
regex = "=1.13.1"
colored = "=2.2.0"
log = "=0.4.35"
serde = { version = "=1.0.229", features = ["derive"] }
serde_json = "=1.0.154"
thiserror = "=1.0.69"
clap = { version = "=4.6.7", features = ["derive"] }
atty = "=0.2.14"
fern = "=0.6.2"
time = { version = "=0.3.55", features = ["macros", "formatting", "local-offset"] }
url = "=2.5.8"
merge = "=0.1.0"
indicatif = "=0.17.11"
petgraph = "0.6"

[dev-dependencies]
serde_yaml = "=0.9.34"
