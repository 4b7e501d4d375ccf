[package]
name = "aa-proxy-obd"
version = "0.1.0"
edition = "2021"
publish = false

[dependencies]
anyhow = "1"
async-trait = "0.1"
bluer = { version = "0.17", features = ["bluetoothd", "rfcomm"] }
chrono = "0.4"
clap = { version = "4", features = ["derive"] }
ctrlc = "3"
fern = "0.7"
futures-util = "0.3"
log = "0.4"
paris = "1.5"
reqwest = { version = "0.12", default-features = false, features = ["json"] }
serde = { version = "1", features = ["derive"] }
serde_json = "1"
tokio = { version = "1", features = ["rt-multi-thread", "macros", "time", "sync", "io-util"] }
tokio-serial = { version = "5.4", default-features = false }
toml = "0.8"
toml_edit = "0.22"
