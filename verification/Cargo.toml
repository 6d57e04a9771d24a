[package]
name = "sst39sf040"
version = "0.1.0"
edition = "2021"
publish = false

[dependencies]
cortex-m = { version = "=0.7.10", features = ["critical-section-single-core"] }
cortex-m-rt = "=0.6.15"
embedded-alloc = "*"
f3 = "=0.6.1"
heapless = "=0.8.0"
numtoa = "=1.0.1"
panic-semihosting = "*"
