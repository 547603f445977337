[package]
name = "mantissa"
version = "0.1.0"
edition = "2021"
publish = false

[dependencies]
anyhow = "*"
async-trait = "*"
base64 = "*"
blake3 = "*"
bytes = "*"
capnp = "*"
crossterm = "*"
devicemapper = "*"
libc = "*"
libublk = "*"
merkle-search-tree = "*"
nix = { version = "*", features = ["fs"] }
ratatui = "*"
redb = "*"
smol = "*"
thiserror = "*"
tokio = { version = "*", features = ["sync", "rt", "macros"] }
tracing = "*"
uuid = "*"

[dev-dependencies]
crdts = "*"
