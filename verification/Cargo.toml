[package]
name = "kyanite"
version = "0.1.0"
edition = "2021"
publish = false

[dependencies]
colored = "2"
inkwell = { version = "0.5", features = ["llvm18-0"] }
log = "0.4"
serde = { version = "1", features = ["derive"] }
tempfile = "3"
thiserror = "1"
