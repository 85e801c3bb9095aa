[package]
name = "battleverse_launcher"
version = "0.1.0"
edition = "2021"
publish = false

[dependencies]
uuid = { version = "1", features = ["v3"] }
serde = { version = "1", features = ["derive"] }
serde_json = "1"
reqwest = { version = "0.12", default-features = false, features = ["json", "blocking", "stream", "rustls-tls"] }
tokio = { version = "1", features = ["rt-multi-thread", "macros"] }
futures-util = "0.3"
zip = { version = "2", default-features = false, features = ["deflate"] }
dirs = "5"
windows-sys = { version = "0.48", features = ["Win32_Foundation", "Win32_System_Threading", "Win32_System_ProcessStatus"] }
