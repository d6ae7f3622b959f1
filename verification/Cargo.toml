[package]
name = "mus"
version = "0.2.0"
edition = "2021"
publish = false

[dependencies]
ariadne = "=0.5.1"
clap = { version = "=4.6.7", features = ["derive"] }
colored = "=3.1.1"
inkwell = { version = "=0.5.0", features = ["llvm14-0-force-dynamic"] }
