[package]
name = "corepy_runtime"
version = "0.1.0"
edition = "2021"
publish = false

[dependencies]
chrono = "*"
lazy_static = "*"
num_cpus = "*"
parking_lot = "*"
rayon = "*"
serde = { version = "*", features = ["derive"] }
serde_json = "*"
uuid = { version = "*", features = ["v4"] }
