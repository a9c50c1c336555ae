[package]
name = "cursecov"
version = "0.1.0"
edition = "2021"
rust-version = "1.95"
publish = false

[dependencies]
clap = { version = "=4.6.7", features = ["derive"] }
glob = "=0.3.4"
oxc_allocator = "0.130"
oxc_ast = "0.130"
oxc_parser = "0.130"
oxc_span = "0.130"
regex = "=1.13.1"
