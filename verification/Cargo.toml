[package]
name = "rusty_stl"
version = "0.1.0"
edition = "2021"
publish = false

[dependencies]
clap = { version = "4", features = ["derive"] }
glob = "0.3"
parry3d = "*"
rayon = "1"
stl_io = "*"
