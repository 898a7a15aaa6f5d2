[package]
name = "sarif_fmt"
version = "0.1.0"
edition = "2021"
publish = false

[dependencies]
serde_json = "1"
clap = { version = "4", features = ["derive"] }
anyhow = "1"
codespan-reporting = "0.11"
