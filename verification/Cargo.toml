[package]
name = "stream_bridge"
version = "0.1.0"
edition = "2021"
publish = false

[dependencies]
bytes = "1"
async-stream = "0.3"
futures = "0.3"
rand = "0.8"
tokio = { version = "1", features = ["macros", "rt-multi-thread", "sync"] }
llm = "0.1.1"
