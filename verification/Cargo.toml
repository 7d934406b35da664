[package]
name = "windowed_statements"
version = "0.1.0"
edition = "2021"
publish = false

[dependencies]
chrono = "*"
reqwest = { version = "*", default-features = false, features = ["json", "rustls-tls"] }
serde = { version = "*", features = ["derive"] }
serde_json = "*"
simple_excel_writer = "*"
tokio = { version = "*", features = ["macros", "rt-multi-thread", "sync"] }
toml = "*"
