[package]
name = "dual_grid"
version = "0.1.0"
edition = "2021"
publish = false

[dependencies]
serde_yaml = "=0.9.34"
log = "=0.4.34"
pretty_env_logger = "=0.5.0"
