[package]
name = "axiom_carriers"
version = "0.1.0"
edition = "2021"
publish = false

[dependencies]
async-trait = "=0.1.92"
base64 = "=0.22.1"
chrono = "=0.4.45"
ciborium = "=0.2.2"
clap = { version = "=4.6.7", features = ["derive"] }
colored = "=2.2.0"
ed25519-dalek = "=2.2.0"
futures-util = "=0.3.34"
hex = "=0.4.3"
env_logger = "=0.11.11"
libc = "=0.2.191"
log = "=0.4.35"
mail-parser = "=0.11.9"
notify = "=6.1.1"
reqwest = { version = "=0.12.28", default-features = false, features = ["native-tls"] }
rustls = { version = "=0.23.46", default-features = false, features = ["std", "tls12", "ring"] }
rustls-pemfile = "=2.2.0"
seccompiler = "=0.5.0"
sequoia-openpgp = { version = "=2.4.2", default-features = false, features = ["crypto-rust", "allow-experimental-crypto", "allow-variable-time-crypto"] }
serde = { version = "=1.0.229", features = ["derive"] }
serde_json = { version = "=1.0.154", features = ["float_roundtrip"] }
tokio = { version = "=1.54.1", features = ["full"] }
tokio-native-tls = "=0.3.1"
tokio-tungstenite = "=0.30.0"
tokio-rustls = { version = "=0.26.6", default-features = false, features = ["tls12", "ring"] }
toml = "=0.8.23"
tracing = "=0.1.44"
tracing-subscriber = { version = "=0.3.23", features = ["env-filter"] }
uuid = { version = "=1.29.0", features = ["v4"] }
