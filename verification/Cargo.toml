[package]
name = "lib_mal"
version = "0.1.0"
edition = "2021"
publish = false

[dependencies]
pkce = "*"
serde = { version = "1", features = ["derive"] }
serde_json = "1"
reqwest = { version = "0.11", default-features = false, features = ["rustls-tls"] }
tokio = { version = "1", features = ["macros", "rt-multi-thread"] }
tiny_http = "0.12"
clap = "2"
cli-table = "*"
crossterm = "*"
spinners = "*"
directories = "*"
webbrowser = "*"
