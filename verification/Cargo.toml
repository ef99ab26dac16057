[package]
name = "hypr_rdp"
version = "0.1.0"
edition = "2021"
publish = false

[dependencies]
anyhow = "1"
async-trait = "0.1"
clap = { version = "4", features = ["derive"] }
ironrdp-cliprdr = "=0.7.0"
ironrdp-cliprdr-format = "=0.3.0"
ironrdp-core = "=0.2.1"
ironrdp-displaycontrol = "=0.8.0"
ironrdp-pdu = "=0.9.0"
ironrdp-server = { version = "=0.13.0", features = ["helper", "egfx"] }
libva-sys = "=0.1.2"
serde = { version = "1", features = ["derive"] }
tokio = { version = "1", features = ["full"] }
toml = "=1.1.8"
tracing = "0.1"

[dev-dependencies]
png = "=0.18.1"
