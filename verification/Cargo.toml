[package]
name = "xen-guest-agent"
version = "0.1.0"
edition = "2021"
publish = false

[dependencies]
uuid = { version = "=1.29.0", features = ["v4"] }
uname = "=0.1.1"
os_info = "=3.15.0"
xenstore-rs = { version = "=0.8.0", features = ["async-tokio"] }
network-interface = "=2.0.5"
netlink-packet-core = "=0.7.0"
netlink-packet-route = "=0.21.0"
netlink-proto = "=0.11.5"
rtnetlink = "=0.15.0"
tokio = { version = "=1.54.1", features = ["rt-multi-thread", "macros", "time", "sync"] }
futures = "=0.3.34"
smol = "=2.0.2"
flume = "=0.11.1"
event-listener = "=5.4.2"
clap = { version = "=4.6.7", features = ["derive"] }
log = "=0.4.35"
env_logger = "=0.11.11"
syslog = "=7.0.0"
anyhow = "=1.0.104"
