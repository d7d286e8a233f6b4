[package]
name = "flowly_mpegts"
version = "0.1.0"
edition = "2021"
publish = false

[dependencies]
async-stream = "=0.3.6"
bytes = "=1.12.1"
flowly = "=0.6.1"
futures = "=0.3.34"
thiserror = "=2.0.21"

[dev-dependencies]
mpeg2ts = "=0.6.1"
