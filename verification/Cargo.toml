[package]
name = "pacpin"
version = "0.1.0"
edition = "2021"
publish = false

[dependencies]
alpm = "5"
chrono = "0.4"
colored = "*"
crossterm = "*"
ctrlc = "3"
glob = "0.3"
libc = "0.2"
serde = { version = "1", features = ["derive"] }
serde_json = "1"
tar = "0.4"
terminal_size = "*"
toml = "0.8"
ureq = { version = "2", features = ["json"] }
