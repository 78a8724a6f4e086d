[package]
name = "libthere"
version = "0.1.0"
edition = "2021"
publish = false

[dependencies]
shell-words = "1"
tokio = { version = "1", features = ["sync", "rt", "rt-multi-thread", "macros", "process", "io-util", "fs", "time"] }
rand = "0.8"
regex = "1"
anyhow = "1"
async-trait = "0.1"
serde = { version = "1", features = ["derive"] }
serde_yaml = "0.9"
serde_json = "1"
clap = { version = "4", features = ["cargo"] }
thiserror = "1"
tracing = "0.1"
tracing-subscriber = { version = "0.3", features = ["time", "json", "fmt"] }
time = { version = "0.3", features = ["macros", "formatting"] }
color-eyre = "0.6"
futures = "0.3"
tokio-stream = "0.1"
tokio-util = { version = "0.7", features = ["codec"] }
thrussh = "0.33"
thrussh-keys = "0.21"
axum = "0.6"
nanoid = "0.4"
nanoid-dictionary = "0.4"
quick_cache = "*"
network-interface = "*"
reqwest = { version = "0.11", default-features = false, features = ["blocking"] }
directories = "5"
dialoguer = { version = "0.10", default-features = false }
