[package]
name = "installer_analysis"
version = "0.1.0"
edition = "2021"
publish = false

[dependencies]
byteorder = "=1.5.0"
camino = "=1.2.6"
encoding_rs = "=0.8.42"
flate2 = "=1.1.10"
bzip2 = "=0.6.1"
liblzma = "=0.4.9"
memmap2 = "=0.9.12"
winget-types = "=0.5.2"
tokio = { version = "=1.54.1", features = ["fs", "io-util", "rt", "macros"] }
futures-util = "=0.3.34"
serde = { version = "1", features = ["derive"] }
