[package]
name = "const_cge"
version = "0.1.0"
edition = "2021"
publish = false

[dependencies]
cge = "=0.1.1"
libm = "=0.2.16"
rustc_apfloat = "=0.2.3"
