[package]
name = "glycerine"
version = "0.1.0"
edition = "2021"
publish = false

[dependencies]
backoff = "0.4"
clap = { version = "4", features = ["derive", "env"] }
futures = "0.3"
libc = "0.2"
mnl = "*"
nfq = "*"
nftnl = "*"
nix = { version = "*", features = ["ioctl", "socket", "net"] }
pnet = "*"
rtnetlink = "*"
serde = { version = "1", features = ["derive"] }
serde_json = "1"
socket2 = { version = "*", features = ["all"] }
thiserror = "2"
tokio = { version = "1", features = ["full"] }
tokio-util = "0.7"
tracing = "0.1"
tracing-subscriber = { version = "0.3", features = ["env-filter", "json"] }
