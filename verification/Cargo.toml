[package]
name = "nasdaq-itch-orderbook"
version = "0.1.0"
edition = "2021"
publish = false

[dependencies]
rustc-hash = "2"
clap = { version = "4", features = ["derive"] }
memmap2 = "0.9"
mimalloc = "0.1"
tokio = { version = "1", features = ["rt-multi-thread", "macros", "net", "sync"] }
tokio-tungstenite = "0.24"
futures-util = "0.3"
serde_json = "1"
tracing = "0.1"
tracing-subscriber = "0.3"
