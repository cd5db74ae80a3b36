[package]
name = "paastel"
version = "0.1.0"
edition = "2021"
publish = false

[dependencies]
base64 = "=0.22.1"
clap = { version = "=4.6.7", features = ["env", "string"] }
dirs = "=7.0.0"
k8s-openapi = { version = "=0.27.1", features = ["latest"] }
kube = "=3.1.0"
prettytable-rs = "=0.10.0"
tracing = "=0.1.44"
tracing-subscriber = { version = "=0.3.23", features = ["env-filter"] }
