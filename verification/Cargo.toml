[package]
name = "ai_provider_proxy"
version = "0.1.0"
edition = "2021"
publish = false

[dependencies]
async-stream = "0.3"
base64 = "0.22"
bytes = "1"
clap = { version = "4", features = ["derive"] }
ctrlc = "3"
env_logger = "0.11"
flume = "*"
futures-util = "0.3"
httparse = "1"
jsonwebtoken = { version = "10", features = ["rust_crypto"] }
log = "0.4"
mime_guess = "2"
monoio = { version = "0.2", features = ["sync"] }
monoio-rustls = "*"
rand = "*"
rusqlite = { version = "*", features = ["bundled"] }
rust-embed = "8"
rustls = "0.23"
rustls-pki-types = "1"
serde = { version = "1", features = ["derive"] }
serde_json = "1"
sha1 = "0.10"
thiserror = "2"
ureq = "3"
url = "2"
urlencoding = "2"
uuid = { version = "1", features = ["v4"] }
webpki-roots = "*"
