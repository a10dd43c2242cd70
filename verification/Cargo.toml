[package]
name = "fnloc"
version = "0.1.0"
edition = "2021"
publish = false

[dependencies]
syn = { version = "=2.0.119", features = ["full"] }
clap = { version = "=4.6.7", features = ["derive"] }
walkdir = "=2.5.0"
thiserror = "=2.0.21"
