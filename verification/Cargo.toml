[package]
name = "v5_core"
version = "0.1.0"
edition = "2021"
publish = false

[dependencies]
crc = "3"
base64 = "0.22"
extendhash = "1"
time = { version = "0.3", features = ["formatting"] }
rust-ini = "0.21"
corncobs = "0.1"
libdeflater = "1"
clap = "4"
tokio = { version = "1", features = ["full"] }
tokio-serial = "5"
btleplug = "0.11"
env_logger = "0.11"
log = "0.4"
futures = "0.3"
uuid = "1"
thiserror = "1"
async-trait = "0.1"
