[package]
name = "filter"
version = "0.1.0"
edition = "2021"
publish = false

[dependencies]
anyhow = "=1.0.104"
binary-heap-plus = "=0.5.0"
crossbeam-channel = "=0.5.17"
itertools = "0.10"
lru = "=0.12.5"
mlua = { version = "=0.8.10", features = ["lua54", "module"] }
neovim-lib = "=0.6.1"
nucleo-matcher = "=0.2.0"
rmp = "=0.8.14"
serde = { version = "=1.0.229", features = ["derive"] }
serde_json = "=1.0.154"
structopt = "=0.3.26"
