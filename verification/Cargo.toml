[package]
name = "systemd-networkd-vpnc"
version = "0.1.0"
edition = "2021"
publish = false

[dependencies]
anyhow = "=1.0.104"
argh = "=0.1.19"
envy = "=0.4.2"
futures = "=0.3.34"
serde = { version = "=1.0.229", features = ["derive"] }
tarpc = { version = "=0.38.0", features = ["serde-transport", "serde-transport-bincode", "tokio1", "serde1"] }
thiserror = "=2.0.21"
tokio = { version = "=1.54.1", features = ["macros", "net", "rt-multi-thread"] }
tokio-util = { version = "=0.7.20", features = ["codec"] }
