[package]
name = "tlogg"
version = "0.1.0"
edition = "2021"
publish = false

[dependencies]
rusqlite = { version = "0.24", features = ["bundled"] }
structopt = "0.3"
xdg = "2"
