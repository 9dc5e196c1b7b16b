[package]
name = "radar_lib"
version = "0.1.0"
edition = "2021"
publish = false

[dependencies]
rand = "0.8"
mdns-sd = "*"
ssdp-client = "*"
quick-xml = { version = "*", features = ["serialize"] }
reqwest = "*"
dns-lookup = "*"
trust-dns-resolver = "*"
default-net = "*"
get_if_addrs = "*"
tokio = { version = "1", features = ["full"] }
futures = "0.3"
serde = { version = "1", features = ["derive"] }
serde_json = "1"
thiserror = "*"
once_cell = "1"
libc = "0.2"
log = "0.4"
