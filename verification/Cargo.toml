[package]
name = "volatile_vm"
version = "0.1.0"
edition = "2021"
publish = false

[dependencies]
frame-support = "=49.0.1"
log = "=0.4.35"
parity-scale-codec = { version = "=3.7.5", features = ["derive"] }
smallvec = "=1.16.4"
sp-core = "=43.0.0"
sp-runtime = "=49.0.0"
