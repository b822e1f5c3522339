[package]
name = "ilovetv"
version = "0.1.0"
edition = "2021"
publish = false

[dependencies]
serde_json = "1"
serde = { version = "1", features = ["derive", "rc"] }
reqwest = { version = "0.11", features = ["gzip", "deflate", "stream"] }
tokio = { version = "1", features = ["macros", "rt-multi-thread"] }
futures-util = "0.3"
bytes = "1"
indicatif = "0.17"
colored = "2"
directories = "4"
structopt = "0.3"
async-recursion = "1"
