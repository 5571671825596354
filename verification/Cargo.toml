[package]
name = "radicle-plan-cob"
version = "0.1.0"
edition = "2021"
publish = false

[dependencies]
radicle = "=0.25.1"
# radicle asks for indexmap without its default features and does not build
# unless `std` is switched on: this line does that, and nothing else names the crate.
indexmap = { version = "=2.14.2", features = ["std"] }
serde = { version = "=1.0.229", features = ["derive"] }
serde_json = "=1.0.154"
thiserror = "=2.0.21"
clap = { version = "=4.6.7", features = ["derive"] }
env_logger = "=0.11.11"
log = "=0.4.34"
nonempty = "=0.9.0"
