[package]
name = "sentinel_agent"
version = "0.1.0"
edition = "2021"
publish = false

[dependencies]
crc32fast = "=1.5.4"
hmac = "=0.12.1"
sha2 = "=0.10.9"
base64 = "=0.22.1"
flate2 = "=1.1.10"
aes-gcm = "=0.10.3"
rand = "=0.8.8"
serde = { version = "1", features = ["derive"] }
serde_json = "1"
serde_yaml = "0.9"
prost = "0.13"
tokio = { version = "1", features = ["full"] }
tracing = "0.1"
sysinfo = "0.30"
axum = "0.7"
reqwest = { version = "0.12", default-features = false, features = ["json"] }
wasmtime = { version = "=45.0.3", default-features = false, features = ["cranelift", "wat", "runtime"] }
