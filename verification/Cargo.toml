[package]
name = "minivector"
version = "0.1.0"
edition = "2021"
publish = false

[dependencies]
nix = { version = "0.27", features = ["fs"] }
slice-deque = "0.3"
