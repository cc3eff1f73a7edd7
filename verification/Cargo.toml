[package]
name = "ai_vmm"
version = "0.1.0"
edition = "2021"
publish = false

[dependencies]
axum = "=0.7.9"
clap = { version = "=4.6.7", features = ["derive"] }
ctrlc = "=3.5.2"
directories = "=5.0.1"
kvm-bindings = { version = "=0.14.2", features = ["fam-wrappers"] }
kvm-ioctls = "=0.25.1"
linux-loader = { version = "=0.13.2", features = ["elf"] }
reqwest = { version = "=0.12.28", default-features = false, features = ["json", "rustls-tls"] }
rpassword = "=7.5.4"
serde = { version = "=1.0.229", features = ["derive"] }
serde_json = { version = "=1.0.154", features = ["float_roundtrip"] }
tokio = { version = "=1.54.1", features = ["macros", "net", "rt-multi-thread", "signal"] }
toml = "=0.8.23"
vm-memory = { version = "=0.17.1", features = ["backend-mmap"] }
vmm-sys-util = "=0.15.0"
