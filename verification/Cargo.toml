[package]
name = "annatar"
version = "0.1.0"
edition = "2021"
publish = false

[dependencies]
artano = "*"
clap = { version = "3", features = ["derive"] }
dotenv = "0.15"
font-kit = "*"
reqwest = { version = "0.11", default-features = false, features = ["blocking", "rustls-tls"] }
textwrap = { version = "0.16", features = ["terminal_size"] }

[dev-dependencies]
regex = "1"
