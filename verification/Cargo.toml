[package]
name = "kdeets"
version = "0.1.0"
edition = "2021"
publish = false

[dependencies]
tame-index = { version = "=0.26.3", features = ["sparse", "local-builder"] }
semver = "=1.0.28"
fs_extra = "=1.3.0"
clap = { version = "=4.6.7", features = ["derive"] }
clap-verbosity-flag = "=3.0.4"
colorful = "=0.3.2"
env_logger = "=0.11.11"
log = "=0.4.34"
thiserror = "=2.0.21"

[dev-dependencies]
tempfile = "=3.27.0"
