[package]
name = "storage_rocksdb"
version = "0.1.0"
edition = "2021"
publish = false

[dependencies]
cita_cloud_proto = "=6.7.4"
prost = "=0.13.5"
rocksdb = "=0.25.0"
tonic = "=0.12.3"
tokio = { version = "=1.54.1", features = ["full"] }
clap = { version = "=4.6.7", features = ["derive"] }
tracing = "=0.1.44"
tower = "=0.5.3"
cloud-util = "=0.8.2"
serde = { version = "1", features = ["derive"] }

[dev-dependencies]
tempfile = "=3.27.0"
