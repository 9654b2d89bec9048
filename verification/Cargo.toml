[package]
name = "dualpane"
version = "0.1.0"
edition = "2021"
publish = false

[dependencies]
chrono = { version = "0.4", default-features = false, features = ["alloc", "std", "clock"] }
uuid = { version = "1", features = ["v4"] }
dirs = "5"
egui = "0.28"
tokio = { version = "1", features = ["rt", "rt-multi-thread", "time"] }
