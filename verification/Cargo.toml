[package]
name = "llama_cpp_launcher"
version = "0.1.0"
edition = "2021"
publish = false

[dependencies]
regex = "=1.13.1"
flate2 = "=1.1.10"
serde = { version = "=1.0.229", features = ["derive"] }
serde_json = "=1.0.154"
ureq = "=2.12.1"
zip = "=2.6.1"
tar = "=0.4.46"
dirs = "=7.0.0"
sys-locale = "=0.3.2"
gguf-rs = "*"
