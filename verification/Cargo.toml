[package]
name = "rock_paper_scissor"
version = "0.1.0"
edition = "2021"
publish = false

[dependencies]
parity-scale-codec = { version = "*", features = ["derive"] }
scale-info = { version = "*", features = ["derive"] }
frame-support = "*"
frame-system = "*"
sp-io = "*"
sp-runtime = "*"
sp-std = "*"
