[package]
name = "system_bridge"
version = "0.1.0"
edition = "2021"
publish = false

[dependencies]
anyhow = "=1.0.104"
axum = { version = "=0.7.9", features = ["ws"] }
base64 = "=0.22.1"
byteorder = "=1.5.0"
chrono = "=0.4.45"
clap = { version = "=4.6.7", features = ["derive"] }
ctrlc = "=3.5.2"
dirs = "=5.0.1"
futures = "=0.3.34"
hex = "=0.4.3"
if-addrs = "=0.15.0"
lazy_static = "=1.5.1"
reqwest = { version = "=0.12.28", default-features = false, features = ["blocking", "json"] }
rfd = { version = "=0.15.4", default-features = false, features = ["xdg-portal", "tokio"] }
serde = { version = "=1.0.229", features = ["derive"] }
serde_json = "=1.0.154"
sha1 = "=0.10.7"
sha2 = "=0.10.9"
socket2 = "=0.5.10"
sysinfo = "=0.30.13"
tempfile = "=3.27.0"
tokio = { version = "=1.54.1", features = ["full"] }
tower-http = { version = "=0.5.2", features = ["cors", "trace"] }
tracing = "=0.1.44"
tracing-appender = "=0.2.5"
tracing-subscriber = { version = "=0.3.23", features = ["env-filter"] }
uuid = { version = "=1.29.0", features = ["v4"] }
windows-sys = { version = "=0.52.0", features = ["Win32_Foundation", "Win32_System_Threading", "Win32_UI_Input_KeyboardAndMouse", "Win32_UI_WindowsAndMessaging"] }
