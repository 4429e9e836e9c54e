[package]
name = "paged_queue"
version = "0.1.0"
edition = "2021"
publish = false

[dependencies]
parity-scale-codec = { version = "=3.7.5", features = ["derive", "max-encoded-len"] }
scale-info = { version = "*", features = ["derive"] }
sp-weights = "=37.0.0"
bounded-collections = "=0.3.2"
ss58-registry = "=1.51.0"
frame-support = "=49.0.0"
frame-system = "*"
sp-core = "=43.0.0"
sp-io = "=49.0.0"
sp-runtime = "=49.0.0"
staging-xcm = "*"
polkadot-parachain-primitives = "*"
