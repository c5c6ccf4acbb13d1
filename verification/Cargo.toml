[package]
name = "tango"
version = "0.1.0"
edition = "2021"
publish = false

[dependencies]
anyhow = "=1.0.104"
byteorder = "=1.5.0"
clap = { version = "=3.2.25", features = ["derive"] }
env_logger = "=0.9.3"
envconfig = "=0.10.0"
futures-util = "=0.3.34"
indicatif = "=0.17.11"
log = "=0.4.34"
parking_lot = "=0.12.5"
rand = "=0.8.8"
rand_pcg = "=0.3.1"
sha3 = "=0.10.9"
shell-words = "=1.1.1"
subtle = "=2.6.1"
tempfile = "=3.27.0"
tokio = { version = "=1.54.1", features = ["macros", "net", "rt-multi-thread", "sync"] }
tokio-tungstenite = "=0.17.2"
