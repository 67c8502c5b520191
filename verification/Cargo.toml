[package]
name = "rplace"
version = "0.1.0"
edition = "2021"
publish = false

[dependencies]
mtpng = "=0.4.1"
serde = { version = "=1.0.229", features = ["derive"] }
tokio = { version = "=1.53.2", features = ["full"] }
warp = { version = "=0.4.3", features = ["server"] }

[dev-dependencies]
png = "=0.18.1"
