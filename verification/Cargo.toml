[package]
name = "lzc-sdk"
version = "0.1.0"
edition = "2021"
publish = false

[dependencies]
base64 = "=0.22.1"
bytes = "=1.12.1"
ed25519-dalek = { version = "=2.2.0", features = ["pkcs8"] }
http = "=1.5.0"
hyper-util = { version = "=0.1.21", features = ["tokio"] }
prost = "=0.13.5"
prost-types = "=0.13.5"
rsa = "=0.9.10"
rustls = { version = "=0.23.46", default-features = false, features = ["ring", "std"] }
rustls-pemfile = "=2.2.0"
secrecy = "=0.10.3"
thiserror = "=2.0.21"
tokio = { version = "=1.54.1", features = ["full"] }
tokio-rustls = { version = "=0.26.6", default-features = false, features = ["ring"] }
tonic = { version = "=0.13.1", features = ["tls-ring"] }
tower = { version = "=0.5.3", features = ["util"] }
url = "=2.5.8"
x509-parser = "=0.17.0"

[dev-dependencies]
rcgen = { version = "=0.14.10", default-features = false, features = ["crypto", "pem", "ring"] }
