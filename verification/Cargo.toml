[package]
name = "lattice"
version = "0.1.0"
edition = "2021"
publish = false

[dependencies]
uuid = { version = "=1.29.0", features = ["v7"] }
time = { version = "=0.3.55", features = ["formatting", "parsing"] }
regex = "=1.13.1"
serde = { version = "=1.0.229", features = ["derive"] }
serde_json = "=1.0.154"
toml = "=0.8.23"
minijinja = "=2.24.0"
directories = "=6.0.0"
crossterm = "=0.29.0"
ratatui = "=0.30.2"
tokio = { version = "=1.54.1", features = ["rt-multi-thread", "macros", "process", "fs", "sync", "time", "io-util"] }
lru = "=0.18.5"
