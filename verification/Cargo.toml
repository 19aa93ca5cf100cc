[package]
name = "mandelbrot"
version = "0.1.0"
edition = "2021"
publish = false

[dependencies]
astro-float = "=0.9.6"
clap = { version = "=4.6.7", features = ["derive"] }
image = "=0.25.10"
rayon = "=1.12.0"
thiserror = "=1.0.69"
