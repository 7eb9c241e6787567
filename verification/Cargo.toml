[package]
name = "ckb-vm-syscall-tracer"
version = "0.1.0"
edition = "2021"
publish = false

[dependencies]
ckb-chain-spec = "=0.202.0"
ckb-mock-tx-types = "=0.202.1"
ckb-script = "=0.202.0"
ckb-traits = "=0.202.0"
ckb-types = "=0.202.0"
ckb-vm = "0.24"
clap = { version = "4", features = ["derive"] }
gecko_profile = "*"
hex = "0.4"
prost = "0.13"
serde = { version = "1", features = ["derive"] }
serde_json = "1"
