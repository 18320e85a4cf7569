[package]
name = "resource_governor"
version = "0.1.0"
edition = "2021"
publish = false

[dependencies]
num_cpus = "*"
base64 = "*"
chrono = "*"
hostname = "*"
libc = "*"
md5 = "*"
serde = { version = "*", features = ["derive"] }
serde_json = "*"
sha2 = "*"
uuid = { version = "*", features = ["v4"] }
rustc_version_runtime = "*"
