[package]
name = "geoterm"
version = "0.1.0"
edition = "2021"
publish = false

[dependencies]
bytes = "1"
lzss = "*"
tokio = { version = "1", features = ["full"] }
futures = "0.3"
geoutils = "*"
json = "*"
rand = "0.9"
reqwest = { version = "*", default-features = false, features = ["rustls-tls"] }
image = { version = "0.25", default-features = false, features = ["jpeg", "png"] }
thiserror = "*"
eyre = "*"
color-eyre = "*"
crossterm = { version = "*", features = ["event-stream"] }
ratatui = "*"
ctrlc = "*"
clap = { version = "4", features = ["derive"] }
tokio-serial = { version = "*", default-features = false }
