[package]
name = "crab_net"
version = "0.1.0"
edition = "2021"
publish = false

[dependencies]
fastrand = "*"
tokio = { version = "*", features = ["full"] }
kanal = "*"
clap = "*"
serde = { version = "*", features = ["derive"] }
serde_yaml = "*"
log = "*"
simple_logger = "*"
byte-unit = "*"
coarsetime = "*"
mimalloc = "*"
openssl = "*"
tokio-native-tls = "*"
tokio-dtls-stream-sink = "*"
