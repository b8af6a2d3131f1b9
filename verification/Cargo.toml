[package]
name = "tcp_segment"
version = "0.1.0"
edition = "2021"
publish = false

[dependencies]
log = "=0.4.34"
num = "=0.4.3"
thiserror = "=1.0.69"
