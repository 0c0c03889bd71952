[package]
name = "ds_core"
version = "0.1.0"
edition = "2021"
publish = false

[dependencies]
tokio = { version = "*", features = ["rt-multi-thread", "net", "time", "sync", "io-util", "macros"] }
gilrs = "*"
mdns-sd = "*"
if-addrs = "*"
sysinfo = "*"
battery = "*"
parking_lot = "*"
serde = { version = "*", features = ["derive"] }
