[package]
name = "aionc"
version = "0.1.0"
edition = "2021"
publish = false

[dependencies]
clap = { version = "4", features = ["derive"] }
thiserror = "1"
inkwell = { version = "0.5", features = ["llvm15-0"] }
