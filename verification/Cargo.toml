[package]
name = "alpacka"
version = "0.1.0"
edition = "2021"
publish = false

[dependencies]
flate2 = "1"
smol_str = "0.3"
tar = "0.4"
thiserror = "2"
