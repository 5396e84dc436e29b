[package]
name = "rcore_os"
version = "0.1.0"
edition = "2021"
publish = false

[dependencies]
lazy_static = "1.4"
riscv = "*"
sbi-rt = { version = "0.0.3", features = ["legacy"] }
