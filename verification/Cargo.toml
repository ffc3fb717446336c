[package]
name = "ampfuzz"
version = "0.1.0"
edition = "2021"
publish = false

[dependencies]
bincode = "1.3"
byteorder = "1"
chrono = "0.4"
clap = "2"
colored = "2"
csv = "1"
ctrlc = "3"
itertools = "0.10"
lazy_static = "1"
libc = "0.2"
log = "0.4"
md-5 = "0.10"
memmap = "0.7"
nix = "0.26"
petgraph = "0.6"
pretty_env_logger = "0.4"
priority-queue = "1"
rand = "0.8"
serde = { version = "1", features = ["derive"] }
serde_json = "1"
twoway = "0.2"
wait-timeout = "0.2"
