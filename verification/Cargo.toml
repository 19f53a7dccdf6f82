[package]
name = "tlspuffin"
version = "0.1.0"
edition = "2021"
publish = false

[dependencies]
itertools = "=0.10.5"
libafl = "=0.15.4"
libafl_bolts = "=0.15.4"
openssl = "=0.10.81"
rustls = "=0.20.9"
serde = { version = "1", features = ["derive"] }
