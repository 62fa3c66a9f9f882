[package]
name = "pawer"
version = "0.1.0"
edition = "2021"
publish = false

[dependencies]
csv = "1.3"
libm = "0.2"
plotters = { version = "0.3", default-features = false, features = ["svg_backend", "line_series"] }
rustyline = "14"
