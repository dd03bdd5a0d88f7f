[package]
name = "farnese"
version = "0.1.0"
edition = "2021"
publish = false

[dependencies]
inkwell = { version = "=0.5.0", features = ["llvm14-0-prefer-dynamic"] }
pest = "=2.9.4"
pest_derive = "=2.9.4"
clap = { version = "=4.6.7", features = ["derive"] }
rustyline = "=19.0.0"
termion = "=4.0.6"
