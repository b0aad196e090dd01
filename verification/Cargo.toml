[package]
name = "rvi"
version = "0.1.0"
edition = "2021"
publish = false

[dependencies]
thiserror = "*"
unicode-segmentation = "*"
nix = { version = "*", features = ["signal"] }
