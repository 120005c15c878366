[package]
name = "macb_timeline"
version = "0.2.0"
edition = "2021"
publish = false

[dependencies]
chrono = "0.4"
glob = "0.3"
md-5 = "0.10"
sha2 = "0.10"
serde = { version = "1", features = ["derive"] }
serde_json = "1"
clap = { version = "4", features = ["derive"] }
tabled = "*"
walkdir = "2"
rustix = { version = "0.38", features = ["fs"] }
rayon = "1"
anyhow = "1"
thiserror = "1"

[dev-dependencies]
tempfile = "3"
