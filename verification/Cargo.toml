[package]
name = "agg"
version = "0.1.0"
edition = "2021"
publish = false

[dependencies]
anyhow = "*"
avt = "*"
clap = { version = "*", features = ["derive"] }
env_logger = "*"
fontdb = "*"
fontdue = "*"
gifski = "*"
imgref = "*"
log = "*"
reqwest = { version = "*", default-features = false, features = ["blocking", "gzip", "rustls-tls"] }
resvg = "*"
rgb = "*"
serde_json = "*"
shellexpand = "*"
tiny-skia = "*"
usvg = "*"
