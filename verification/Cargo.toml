[package]
name = "thought"
version = "0.1.0"
edition = "2021"
publish = false

[dependencies]
pulldown-cmark = "=0.13.4"
sha2 = "=0.10.9"
wat = "=1.261.0"
unicode-segmentation = "=1.13.3"
time = "=0.3.55"
wasmtime = "=48.0.5"
wasmtime-wasi = "=48.0.5"
redb = "=4.3.0"
toml = "=1.1.6"
serde = { version = "=1.0.229", features = ["derive"] }
serde_json = "=1.0.151"
git2 = "=0.21.0"
flate2 = "=1.1.10"
tar = "=0.4.46"
zip = { version = "=8.6.0", default-features = false, features = ["deflate"] }
url = "=2.5.8"
whoami = "=2.1.3"
tiny_http = "=0.12.0"
mime_guess = "=2.0.5"
tantivy = "=0.26.2"
