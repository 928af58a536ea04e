[package]
name = "diskripper-core"
version = "0.1.0"
edition = "2021"
publish = false

[dependencies]
crc32fast = "=1.5.4"
sha2 = "=0.10.9"
sha1 = "=0.10.7"
base64 = "=0.22.1"
uuid = { version = "=1.29.0", features = ["v4"] }
fastrand = "=2.5.0"
num_cpus = "=1.17.0"
serde = { version = "=1.0.229", features = ["derive"] }
serde_json = "=1.0.154"
chrono = { version = "=0.4.45", features = ["serde"] }
dirs = "=5.0.1"
thiserror = "=1.0.69"
clap = { version = "=4.6.7", features = ["derive"] }
tokio = { version = "=1.54.1", features = ["rt-multi-thread", "fs", "io-util", "sync", "time"] }
tokio-util = "=0.7.20"
tracing = "=0.1.44"
tracing-subscriber = { version = "=0.3.23", features = ["env-filter"] }
rayon = "=1.12.0"
libc = "=0.2.191"
filetime = "=0.2.29"
rand = "=0.8.8"
windows-sys = { version = "=0.48.0", features = ["Win32_Foundation", "Win32_Security", "Win32_Storage_FileSystem", "Win32_System_IO"] }
