[package]
name = "music_rust"
version = "0.1.0"
edition = "2021"
publish = false

[dependencies]
clap = { version = "4", features = ["derive"] }
color-eyre = { version = "0.6", default-features = false }
crossterm = "0.28"
libc = "0.2"
lofty = "0.22"
opus-pure = "*"
ratatui = { version = "0.29", default-features = false, features = ["crossterm"] }
rayon = "1"
rodio = { version = "0.20", default-features = false, features = ["symphonia-all"] }
serde = { version = "1", features = ["derive"] }
serde_json = "1"
