[package]
name = "cluster_insights"
version = "0.1.0"
edition = "2021"
publish = false

[dependencies]
k8s-openapi = { version = "*", features = ["latest"] }
kube = { version = "*", default-features = false, features = ["client"] }
rmcp = { version = "*", features = ["server", "macros"] }
serde = { version = "*", features = ["derive"] }
serde_json = "*"
