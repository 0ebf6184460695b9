[package]
name = "query_pipeline"
version = "0.1.0"
edition = "2021"
publish = false

[dependencies]
regex = "1"
serde_json = "1"
serde = { version = "1", features = ["derive"] }
tokio = { version = "1", features = ["rt"] }
async-trait = "0.1"
tracing = "0.1"
clap = { version = "3.2", features = ["derive"] }
structopt = "0.3"
