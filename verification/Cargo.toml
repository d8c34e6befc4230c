[package]
name = "hdfs-native-object-store"
version = "0.16.0"
edition = "2021"
publish = false

[dependencies]
async-trait = "=0.1.92"
chrono = "=0.4.45"
futures = "=0.3.34"
hdfs-native = "0.13"
object_store = "=0.13.2"
tokio = { version = "=1.54.1", features = ["rt-multi-thread", "sync"] }
