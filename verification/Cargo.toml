[package]
name = "fs_mod_parser"
version = "0.1.0"
edition = "2021"
publish = false

[dependencies]
quick-xml = "=0.37.5"
md-5 = "=0.11.0"
base64ct = { version = "=1.8.3", features = ["alloc"] }
serde = { version = "=1.0.229", features = ["derive"] }
serde_json = "=1.0.154"
zip = { version = "=9.2.2", default-features = false, features = ["deflate"] }
glob = "=0.3.4"
pathdiff = "=0.2.3"
image = { version = "=0.25.10", default-features = false }
image_dds = "=0.7.2"
webp = "=0.3.1"
