[package]
name = "treemap-disk-analyzer"
version = "0.1.0"
edition = "2021"
publish = false

[dependencies]
macroquad = "0.4"
notify = { version = "6.1", default-features = false, features = ["macos_kqueue"] }
