[package]
name = "sstv"
version = "0.1.0"
edition = "2021"
publish = false

[dependencies]
deflate = "=1.0.0"
easyfft = "=0.4.2"
spectrum-analyzer = "=2.0.0"
rodio = "=0.17.3"

[dev-dependencies]
miniz_oxide = "*"
