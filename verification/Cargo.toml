[package]
name = "http_wire"
version = "0.1.0"
edition = "2021"
publish = false

[dependencies]
flate2 = "=1.1.10"
clap = { version = "=4.6.7", features = ["derive"] }
rustls = "=0.19.1"
webpki = "=0.21.4"
webpki-roots = "=0.21.1"

[dev-dependencies]
nom = "=7.1.3"
