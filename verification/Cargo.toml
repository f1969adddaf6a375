[package]
name = "bully_election"
version = "0.1.0"
edition = "2021"
publish = false

[dependencies]
uuid = { version = "=1.29.0", features = ["v4", "serde"] }
rand = "=0.9.5"
futures = "=0.3.34"
reqwest = { version = "=0.12.28", default-features = false }
rocket = { version = "=0.5.2", features = ["json"] }
kube = { version = "=3.1.0", default-features = false, features = ["client"] }
k8s-openapi = { version = "=0.27.1", features = ["latest"] }
