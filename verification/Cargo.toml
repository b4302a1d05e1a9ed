[package]
name = "spark_core"
version = "0.1.0"
edition = "2021"
publish = false

[dependencies]
heapless = "0.8"
libm = "0.2"
enum-map = "2"
embassy-sync = "*"
embassy-time = "*"
embassy-futures = "*"
static_cell = "*"
cortex-m = "0.7"
embassy-executor = "*"
