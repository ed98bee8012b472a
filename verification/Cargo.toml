[package]
name = "grain_vm"
version = "0.1.0"
edition = "2021"
publish = false

[dependencies]
bincode = "=1.3.3"
once_cell = "=1.21.4"
serde = { version = "1", features = ["derive"] }
majit-ir = "=0.0.1"
majit-macros = "=0.0.1"
majit-metainterp = "=0.0.1"
