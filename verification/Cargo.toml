[package]
name = "oc_back"
version = "0.1.0"
edition = "2021"
publish = false

[dependencies]
constant_time_eq = "=0.3.1"
rustc-serialize = "=0.3.25"
libflate = "=1.4.0"
once_cell = "1"
time = "=0.1.45"
rng = "=0.1.0"
