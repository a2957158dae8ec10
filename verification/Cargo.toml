[package]
name = "coepi_core"
version = "0.1.0"
edition = "2021"
publish = false

[dependencies]
base64 = "0.13"
chrono = "0.4"
core-foundation = "0.9"
hex = "0.4"
libc = "0.2"
log = "0.4"
once_cell = "1"
parking_lot = "0.12"
rayon = "1"
rusqlite = { version = "*", features = ["bundled"] }
serde = { version = "1", features = ["derive"] }
tcn = "*"
uuid = { version = "0.8", features = ["v4"] }

[dev-dependencies]
rand = "0.7"
