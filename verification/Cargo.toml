[package]
name = "openingexplorer"
version = "0.1.0"
edition = "2021"
publish = false

[dependencies]
byteorder = "=1.5.0"
reqwest = { version = "=0.12.28", default-features = false }
serde = { version = "=1.0.229", features = ["derive"] }
serde_with = "=3.24.0"
shakmaty = "=0.27.3"
smallvec = "=1.16.2"
