[package]
name = "lupa"
version = "0.3.0"
edition = "2021"
publish = false

[dependencies]
anyhow = "=1.0.104"
ashpd = { version = "=0.13.13", features = ["global_shortcuts"] }
base64 = "=0.22.1"
bytes = "=1.12.1"
chardetng = "=0.1.17"
chrono = { version = "=0.4.45", features = ["serde"] }
clap = { version = "=4.6.7", features = ["derive"] }
dirs = "=7.0.0"
encoding_rs = "=0.8.44"
futures = "=0.3.34"
gtk4 = "=0.11.5"
inventory = "=0.3.25"
libc = "=0.2.191"
mime_guess = "=2.0.5"
notify = "=8.2.1"
quoted_printable = "=0.5.2"
regex = "=1.13.1"
rtf-grimoire = "=0.2.1"
rusqlite = { version = "=0.41.1", features = ["bundled"] }
serde = { version = "=1.0.229", features = ["derive"] }
serde_json = "=1.0.154"
tantivy = "=0.22.1"
tokio = { version = "=1.54.1", features = ["full"] }
tokio-util = { version = "=0.7.20", features = ["codec"] }
toml = "=0.8.23"
tracing = "=0.1.44"
walkdir = "=2.5.0"
which = "=8.0.6"
zbus = "=5.19.0"
zip = { version = "=2.6.1", default-features = false, features = ["deflate"] }
