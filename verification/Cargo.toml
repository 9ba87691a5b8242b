[package]
name = "agent-shell-tools"
version = "0.1.0"
edition = "2021"
publish = false

[dependencies]
anyhow = "1"
clap = { version = "4", features = ["derive"] }
command-fds = { version = "0.3", features = ["tokio"] }
libc = "0.2"
nix = { version = "0.29", features = ["fs", "process", "signal"] }
postcard = { version = "1", default-features = false, features = ["alloc"] }
prost = "0.13"
serde = { version = "1", features = ["derive"] }
sha2 = "0.10"
tokio = { version = "1", features = ["fs", "io-util", "macros", "net", "process", "rt-multi-thread", "signal"] }
tokio-seqpacket = "*"
toml = "0.8"
