[package]
name = "tray_node"
version = "0.1.0"
edition = "2021"
publish = false

[dependencies]
lz4_flex = "=0.14.0"
redis = { version = "=1.8.1", default-features = false }
nix = { version = "=0.31.3", features = ["user", "feature", "fs"] }
chrono = "=0.4.45"
flate2 = "=1.1.10"
tar = "=0.4.46"
zip = { version = "=9.2.2", default-features = false, features = ["deflate-flate2"] }
walkdir = "=2.5.0"
serde = { version = "=1.0.229", features = ["derive"] }
serde_json = "=1.0.154"
path-clean = "=1.0.1"
serde_yaml = "0.9"
imagesize = "*"
infer = "*"
mime = "0.3"
