[package]
name = "itunes_to_rhythmbox"
version = "0.1.0"
edition = "2021"
publish = false

[dependencies]
anyhow = "1"
chrono = { version = "0.4", default-features = false, features = ["std", "serde"] }
clap = { version = "4", features = ["derive"] }
dirs = "*"
elementtree = "1"
log = "0.4"
plist = "1"
serde = { version = "1", features = ["derive"] }
stderrlog = "*"
