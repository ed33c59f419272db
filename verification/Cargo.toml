[package]
name = "multi_tcp_client"
version = "0.1.0"
edition = "2021"
publish = false

[dependencies]
bs58 = "*"
itertools = "*"
rand = "*"
tokio = { version = "*", features = ["rt-multi-thread", "net", "time", "io-util", "macros"] }
clap = "*"
dotenv = "*"
log = "*"
pretty_env_logger = "*"
