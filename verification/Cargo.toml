[package]
name = "r_nads"
version = "0.1.0"
edition = "2021"
publish = false

[dependencies]
ahash = "0.8"
clap = { version = "4", features = ["derive"] }
crossbeam-channel = "0.5"
ctrlc = "3"
dashmap = "6"
etherparse = "0.13"
hashbrown = "0.14"
pcap = "2"
pcap-file = "2"
rusqlite = "0.31"
serde = { version = "1", features = ["derive"] }
serde_json = "1"
slab = "0.4"
tiny_http = "0.12"
toml = "0.8"
