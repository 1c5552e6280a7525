[package]
name = "ikigai-http"
version = "0.1.0"
edition = "2021"
publish = false

[dependencies]
async-trait = "=0.1.92"
ikigai-core = "0.1"
url = "=2.5.8"

[dev-dependencies]
futures = "=0.3.34"
ikigai-conformance = "0.1"
