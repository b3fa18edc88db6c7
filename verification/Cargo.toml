[package]
name = "slintlauncher"
version = "0.1.0"
edition = "2021"
publish = false

[dependencies]
md-5 = "0.10"
sha1 = "0.10"
hex = "0.4"
uuid = { version = "1", features = ["v4"] }
image = { version = "0.25", default-features = false, features = ["png"] }
chrono = { version = "0.4", default-features = false, features = ["alloc", "clock"] }
serde = { version = "1", features = ["derive"] }
serde_json = "1"
ureq = { version = "2", features = ["json"] }
zip = { version = "2", default-features = false, features = ["deflate"] }
dirs = "5"
open = "5"
rayon = "1"
anyhow = "1"
