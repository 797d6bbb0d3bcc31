[package]
name = "meeting_recorder"
version = "0.1.0"
edition = "2021"
publish = false

[dependencies]
chrono = "=0.4.45"
crossbeam-channel = "=0.5.17"
objc2-core-audio = "=0.3.2"
screencapturekit = { version = "=11.1.2", features = ["macos_15_0"] }
serde = { version = "=1.0.229", features = ["derive"] }
serde_json = "=1.0.154"
thiserror = "=2.0.21"
tokio = { version = "=1.54.1", features = ["macros", "rt", "sync", "time"] }
tracing = "=0.1.44"
windows = { version = "=0.62.2", features = ["Win32_Media_Audio", "Win32_System_Com"] }
