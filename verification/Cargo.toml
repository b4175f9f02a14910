[package]
name = "dither_node"
version = "0.1.0"
edition = "2021"
publish = false

[dependencies]
rand = "=0.8.8"
futures = "=0.3.34"
async-std = "=1.13.2"
log = "=0.4.34"
thiserror = "=1.0.69"
argmin = { version = "=0.8.1", default-features = false }
argmin-math = "=0.3.0"
nalgebra = "=0.32.6"
rkyv = { version = "=0.7.46", features = ["validation"] }
rkyv_codec = "=0.5.0"
bytecheck = "=0.6.12"
