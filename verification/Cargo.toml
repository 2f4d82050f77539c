[package]
name = "kokoroxide"
version = "0.1.0"
edition = "2021"
publish = false

[dependencies]
regex = "=1.13.1"
serde_json = "=1.0.154"
phonetisaurus-g2p = "=0.1.1"
ort = { version = "=2.0.0-rc.15", default-features = false, features = ["std", "ndarray"] }
ndarray = "0.17"
hound = "=3.5.1"
rodio = { version = "=0.17.3", default-features = false, features = ["wav"] }
clap = { version = "=4.6.7", features = ["derive"] }
