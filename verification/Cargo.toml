[package]
name = "trillium_cache"
version = "0.2.1"
edition = "2021"
publish = false

[dependencies]
async-fs = "=2.2.0"
futures-lite = "=2.6.1"
httpdate = "=1.0.3"
log = "=0.4.35"
moka = { version = "=0.12.16", features = ["future", "sync"] }
rkyv = "=0.8.18"
sha2 = "=0.10.9"
trillium = "=1.3.0"
trillium-caching-headers = "=0.4.3"
trillium-client = "=0.9.10"
trillium-http = { version = "=1.4.2", features = ["rkyv_08"] }
trillium-server-common = "=0.7.8"
url = "=2.5.8"
