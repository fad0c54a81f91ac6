[package]
name = "physics_rl_environment"
version = "0.1.0"
edition = "2021"
publish = false

[dependencies]
rand = "0.8"
crossbeam = "0.8"
rapier2d = "0.17"
serde = { version = "1", features = ["derive"] }
serde_json = "1"
dfdx = "0.11"
