[package]
name = "create_file"
version = "0.1.0"
edition = "2021"
publish = false

[dependencies]
rustc-serialize = "=0.3.25"
safe_core = "=0.3.0"
safe_nfs = "=0.3.0"
