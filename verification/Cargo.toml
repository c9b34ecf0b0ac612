[package]
name = "aether"
version = "1.2.0"
edition = "2021"
publish = false

[dependencies]
sha2 = "=0.10.9"
chrono = "=0.4.45"
rand = "=0.8.8"
regex = "=1.13.1"
rustc_apfloat = "=0.2.3"
