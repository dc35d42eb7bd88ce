[package]
name = "solver"
version = "0.1.0"
edition = "2021"
publish = false

[dependencies]
anyhow = "1"
chrono = "0.4"
clap = { version = "4", features = ["derive"] }
fern = "*"
float-ord = "*"
libc = "0.2"
log = "0.4"
memegeom = "*"
rand = "0.8"
rayon = "1"
serde = { version = "1", features = ["derive"] }
serde_json = "1"
svg = "*"
threadpool = "1"
