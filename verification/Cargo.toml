[package]
name = "axum_xml"
version = "0.1.0"
edition = "2021"
publish = false

[dependencies]
async-trait = "*"
axum-core = "*"
bytes = "*"
http = "*"
http-body = "*"
quick-xml = { version = "*", features = ["serialize"] }
serde = "*"
