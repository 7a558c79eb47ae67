[package]
name = "linux_bt_proxy"
version = "0.1.0"
edition = "2021"
publish = false

[dependencies]
clap = { version = "4", features = ["derive"] }
env_logger = "0.11"
futures-util = "0.3"
gethostname = "1"
log = "0.4"
mac_address = "1"
sd-notify = "0.5"
tokio = { version = "1", features = ["macros", "net", "rt-multi-thread", "sync", "time"] }
zbus = { version = "5", default-features = false, features = ["tokio"] }
