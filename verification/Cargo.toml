[package]
name = "sentinel"
version = "0.1.0"
edition = "2021"
publish = false

[dependencies]
anyhow = "=1.0.104"
chrono = "=0.4.45"
clap = { version = "=4.6.7", features = ["derive"] }
clout = "=0.3.0"
keyring = "=3.6.3"
kunobi-jev = "=0.3.0"
octocrab = "=0.47.1"
regorus = "=0.9.1"
reqwest = { version = "=0.13.5", features = ["json", "form"] }
secrecy = { version = "=0.10.3", features = ["serde"] }
serde = { version = "=1.0.229", features = ["derive"] }
serde-env = "=0.3.0"
serde_json = "=1.0.154"
thiserror = "=2.0.21"
tokio = { version = "=1.54.1", features = ["macros", "rt-multi-thread", "fs"] }
