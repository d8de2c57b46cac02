[package]
name = "omarchy_circle_search"
version = "0.1.0"
edition = "2021"
publish = false

[dependencies]
anyhow = "1"
cairo-rs = "*"
clap = { version = "4", features = ["derive"] }
dirs-next = "2"
gtk4 = "*"
gtk4-layer-shell = "*"
