[package]
name = "holium_utils"
version = "0.1.0"
edition = "2021"
publish = false

[dependencies]
anyhow = "1"
base64 = "0.13"
bincode = "1"
blake3 = "1"
cid = "0.7"
console = "0.14"
ellipse = "0.2"
humansize = "1"
mime_guess = "2"
path-clean = "0.1"
petgraph = "0.6"
bimap = "0.6"
itertools = "0.10"
prettytable-rs = "0.8"
serde = { version = "1", features = ["derive"] }
serde_json = "1"
sk-cbor = "0.1"
sled = "0.34"
tempfile = "3"
thiserror = "1"
