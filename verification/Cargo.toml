[package]
name = "slatedb_benchmark"
version = "0.1.0"
edition = "2021"
publish = false

[dependencies]
anyhow = "=1.0.104"
async-trait = "=0.1.92"
base64 = "=0.22.1"
bytes = "=1.12.1"
chrono = "=0.4.45"
clap = { version = "=4.6.7", features = ["derive", "env"] }
flate2 = "=1.1.10"
foyer = "=0.22.6"
futures = "=0.3.34"
hdrhistogram = "=7.6.0"
http = "=1.5.0"
http-body = "=1.1.0"
http-body-util = "=0.1.5"
hostname = "=0.4.2"
humantime = "=2.4.0"
object_store = { version = "=0.14.2", default-features = false, features = ["aws", "fs"] }
rand = "=0.9.5"
rand_distr = "=0.5.1"
reqwest = { version = "=0.13.5", default-features = false, features = ["rustls", "stream"] }
serde = { version = "=1.0.229", features = ["derive"] }
serde_json = "=1.0.154"
sha2 = "=0.10.9"
slatedb = { version = "=0.14.1", default-features = false, features = ["aws", "foyer", "wal_disable", "zstd"] }
slatedb-common = "=0.14.1"
sysinfo = "=0.35.2"
tempfile = "=3.27.0"
tokio = { version = "=1.54.1", features = ["full"] }
toml = "=0.8.23"
tracing = "=0.1.44"
uuid = { version = "=1.29.0", features = ["v4"] }
