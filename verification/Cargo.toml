[package]
name = "logrelay"
version = "0.1.0"
edition = "2021"
publish = false

[dependencies]
chrono = "0.4"
clap = { version = "4", features = ["derive", "env"] }
gethostname = "0.4"
rustls = "0.21"
rustls-pemfile = "1"
webpki-roots = "0.23"
