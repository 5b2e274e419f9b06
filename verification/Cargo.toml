[package]
name = "dnf_assist"
version = "0.1.0"
edition = "2021"
publish = false

[dependencies]
rand = "=0.8.8"
regex = "=1.13.1"
image = { version = "=0.25.10", default-features = false, features = ["png"] }
config = { version = "=0.14.1", default-features = false, features = ["toml"] }
serde = { version = "=1.0.229", features = ["derive"] }
serde_derive = "=1.0.229"
anyhow = "=1.0.104"
ndarray = "=0.17.2"
ort = { version = "=2.0.0-rc.15", default-features = false, features = ["ndarray", "load-dynamic", "std", "cuda", "tensorrt"] }
imageproc = { version = "=0.25.1", default-features = false }
geo-clipper = "=0.8.0"
geo-types = "=0.7.20"
template-matching = "=0.2.0"
