[package]
name = "coreplay"
version = "0.1.0"
edition = "2021"
publish = false

[dependencies]
anyhow = "=1.0.104"
futures = "=0.3.34"
parity-scale-codec = "=3.7.5"
tokio = { version = "=1.54.1", features = ["macros", "rt-multi-thread", "time"] }
wasmtime = { version = "=12.0.2", default-features = false, features = ["async", "cranelift"] }
