[package]
name = "ria"
version = "0.1.0"
edition = "2021"
publish = false

[dependencies]
anyhow = "=1.0.104"
chrono = "=0.4.45"
clap = { version = "=4.6.7", features = ["derive"] }
escape_string = "=0.1.2"
figment = { version = "=0.10.19", features = ["toml", "env"] }
file-format = "=0.29.0"
musicbrainz_rs = { version = "=0.5.0", default-features = false, features = ["blocking"] }
once_cell = "=1.21.4"
percent-encoding = "=2.3.2"
regex = "=1.13.1"
reqwest = { version = "=0.11.27", default-features = false, features = ["rustls-tls"] }
rodio = { version = "=0.17.3", default-features = false, features = ["symphonia-all"] }
sea-orm = { version = "=1.1.20", default-features = false, features = ["macros", "with-chrono", "sqlx-sqlite", "runtime-tokio-rustls"] }
serde = { version = "=1.0.229", features = ["derive"] }
serde_json = "=1.0.154"
symphonia = "=0.5.5"
tokio = { version = "=1.54.1", features = ["rt-multi-thread", "macros", "time", "sync"] }
tracing = "=0.1.44"
tracing-appender = "=0.2.5"
tracing-subscriber = "=0.3.23"
walkdir = "=2.5.0"
