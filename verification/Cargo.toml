[package]
name = "windows_event_log"
version = "0.1.0"
edition = "2021"
publish = false

[dependencies]
chrono = { version = "=0.4.45", default-features = false, features = ["std", "clock", "alloc"] }
lru = "=0.19.0"
quick-xml = "=0.31.0"
serde = { version = "=1.0.229", features = ["derive"] }
serde_json = "=1.0.154"
governor = { version = "=0.10.4", default-features = false, features = ["std"] }
tokio = { version = "=1.54.1", features = ["fs", "io-util", "sync", "time", "rt", "macros"] }
tracing = "=0.1.44"
snafu = "=0.8.9"
futures = "=0.3.34"
exitcode = "=1.1.2"
metrics = "=0.24.6"
windows = { version = "=0.58.0", features = ["Win32_Foundation", "Win32_Storage_FileSystem", "Win32_System_EventLog", "Win32_System_Threading", "Win32_Security", "Win32_Security_Authorization"] }
windows-service = "=0.8.1"
