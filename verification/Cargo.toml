[package]
name = "pdf_diff"
version = "0.1.0"
edition = "2021"
publish = false

[dependencies]
image = { version = "0.25", default-features = false, features = ["png"] }
pdfium-render = "0.8"
clap = { version = "4", features = ["derive"] }
