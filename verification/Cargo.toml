[package]
name = "gpu_lease"
version = "0.1.0"
edition = "2021"
publish = false

[dependencies]
archery = "0.4"
ash = "0.37"
bincode = "1.3"
brotli = "3"
derive_builder = "0.11"
gfx-hal = "0.6"
log = "0.4"
num-format = "0.4"
profiling = "1"
serde = { version = "1", features = ["derive"] }
snap = "1"
