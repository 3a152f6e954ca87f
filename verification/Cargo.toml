[package]
name = "nmea_parser"
version = "0.1.0"
edition = "2021"
publish = false

[dependencies]
bitvec = "1"
hashbrown = "0.14"
serde = { version = "1", features = ["derive"] }
serde_json = "1"
