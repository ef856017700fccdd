[package]
name = "messauto"
version = "0.1.0"
edition = "2021"
publish = false

[dependencies]
emlx = "=0.1.0"
email = "=0.0.21"
sys-locale = "=0.3.2"
chrono = "=0.4.45"
sysproxy = "=0.3.0"
cargo-packager-updater = { version = "=0.2.3", default-features = false }
toml = "=0.9.8"
serde = { version = "1", features = ["derive"] }
dirs = "=6.0.0"
auto-launch = "=0.6.0"
notify = "=8.2.1"
tokio = { version = "1", features = ["rt-multi-thread", "sync", "macros", "time"] }
log = "0.4"
env_logger = "0.11"
winit = "=0.30.13"
image = { version = "0.25", default-features = false, features = ["png"] }
