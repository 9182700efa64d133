[package]
name = "tailcall"
version = "0.1.0"
edition = "2021"
publish = false

[dependencies]
chrono = "0.4"
convert_case = "0.6"
serde_json = "1"
serde = { version = "1", features = ["derive"] }
prost = "0.13"
prost-reflect = "0.14"
protox-parse = "0.7"
reqwest = { version = "0.12", default-features = false }
url = "2"
async-graphql-value = "7"
schemars = "0.8"
hyper = { version = "1", features = ["http1", "http2", "server"] }
http = "1"
bytes = "1"
http-body-util = "0.1"
anyhow = "1"
async-trait = "0.1"
derive_setters = "0.1"
