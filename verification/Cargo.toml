[package]
name = "sf_formula"
version = "0.1.0"
edition = "2021"
publish = false

[dependencies]
annotate-snippets = "0.12"
anyhow = "1"
serde = { version = "1", features = ["derive"] }
serde_json = "1"
serde_repr = "0.1"
tracing = "0.1"
tracing-subscriber = { version = "0.3", features = ["chrono"] }

[dev-dependencies]
winnow = "0.7"
